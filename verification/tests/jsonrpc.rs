use netplan::cli::{
    adapter_matches, is_terminal_job_state, job_get_request, job_list_request, job_wait_bounds,
    method_not_found, parse_config_format, validate_adapter_selector, wifi_scan_request,
    AdapterSelectorParams,
};
use netplan::cli::{job_wait_may_poll, job_wait_next, job_wait_timeout, JobWaitStep};
use netplan::protocol::{ConfigAction, JobState, Request, Response};
use netplan::rpc::{config_action, config_rpc_request, plain_request, request_text, route_method, RpcMethod};
use netplan::{AdapterInfo, ConfigFormat};

fn no_selector() -> AdapterSelectorParams {
    AdapterSelectorParams { if_index: None, name: None, guid: None, mac_address: None, description_contains: None }
}

#[test]
fn job_list_validates_filter_and_limit() {
    assert!(matches!(
        job_list_request(Some(JobState::Running), Some(25)),
        Ok(Request::ListJobs { state: Some(JobState::Running), limit: 25 })
    ));
    assert!(matches!(job_list_request(None, Some(0)), Err(failure) if failure.code == -32602));
    assert!(matches!(job_list_request(None, None), Ok(Request::ListJobs { state: None, limit: 100 })));
}

#[test]
fn job_get_rejects_an_empty_identifier() {
    assert!(matches!(job_get_request("  ".into()), Err(failure) if failure.code == -32602));
    assert_eq!(job_get_request("job-1".into()), Ok(Request::JobStatus { job_id: "job-1".into() }));
}

#[test]
fn adapter_selector_is_required_and_matches_all_supplied_fields() {
    assert!(matches!(validate_adapter_selector(&no_selector()), Err(failure) if failure.code == -32602));
    let bad_mac = AdapterSelectorParams { mac_address: Some("not-a-mac".into()), ..no_selector() };
    assert!(matches!(validate_adapter_selector(&bad_mac), Err(failure) if failure.code == -32602));
    let adapter = AdapterInfo {
        if_index: 7,
        name: "Ethernet".into(),
        description: Some("Realtek PCIe Controller".into()),
        guid: Some("{ABCDEF00-0000-0000-0000-000000000007}".into()),
        mac_address: Some("02-00-00-00-00-07".into()),
        status: "up".into(),
        hardware: true,
        ipv4: Vec::new(),
        ipv6: Vec::new(),
    };
    let selector = AdapterSelectorParams {
        if_index: Some(7),
        name: Some("ethernet".into()),
        guid: None,
        mac_address: Some("02:00:00:00:00:07".into()),
        description_contains: Some("PCIE".into()),
    };
    assert!(validate_adapter_selector(&selector).is_ok());
    assert!(adapter_matches(&adapter, &selector));
    let mismatched = AdapterSelectorParams { name: Some("Wi-Fi".into()), ..selector };
    assert!(!adapter_matches(&adapter, &mismatched));
}

#[test]
fn job_wait_rejects_unbounded_polling_and_recognizes_terminal_states() {
    assert!(matches!(job_wait_bounds("job-1", Some(300_001), None), Err(failure) if failure.code == -32602));
    assert_eq!(job_wait_bounds("job-1", None, None), Ok((30_000, 100)));
    assert!(!is_terminal_job_state(JobState::Queued));
    assert!(!is_terminal_job_state(JobState::Running));
    assert!(is_terminal_job_state(JobState::Succeeded));
    assert!(is_terminal_job_state(JobState::Failed));
    assert!(is_terminal_job_state(JobState::RolledBack));
}

#[test]
fn wifi_scan_defaults_and_bounds_its_timeout() {
    assert_eq!(
        wifi_scan_request(None, None, None),
        Ok(Request::WifiScan { if_index: None, refresh: true, timeout_ms: 4_000 })
    );
    assert!(matches!(
        wifi_scan_request(Some(7), Some(false), Some(100)),
        Err(failure) if failure.data.as_deref() == Some("timeout_ms must be between 250 and 15000")
    ));
}

#[test]
fn configuration_formats_are_named() {
    assert_eq!(parse_config_format("yml"), Ok(ConfigFormat::Yaml));
    assert_eq!(parse_config_format("auto"), Ok(ConfigFormat::Auto));
    assert!(matches!(parse_config_format("toml"), Err(failure) if failure.code == -32602));
}

#[test]
fn unknown_method_uses_standard_json_rpc_error() {
    let failure = method_not_found();
    assert_eq!((failure.code, failure.message.as_str(), failure.data), (-32601, "Method not found", None));
    assert_eq!(route_method("netplan.nope").err().map(|f| f.code), Some(-32601));
}

#[test]
fn config_method_maps_to_typed_flatbuffer_request() {
    let method = route_method("netplan.config.plan").ok().unwrap();
    let action = config_action(method).unwrap();
    let request = config_rpc_request(action, Some("yaml"), "version: 1".into(), None);
    assert!(matches!(
        request,
        Ok(Request::Config { action: ConfigAction::Plan, format: ConfigFormat::Yaml, dry_run: true, .. })
    ));
}

#[test]
fn daemon_status_maps_to_typed_flatbuffer_request() {
    let method = route_method("netplan.daemon.status").ok().unwrap();
    assert!(matches!(plain_request(method), Some(Request::DaemonStatus)));
}

#[test]
fn status_and_wifi_methods_map_to_typed_flatbuffer_requests() {
    let status = route_method("netplan.status").ok().unwrap();
    assert!(matches!(plain_request(status), Some(Request::NetworkStatus)));
    assert_eq!(route_method("netplan.wifi.status").ok(), Some(RpcMethod::WifiStatus));
    assert_eq!(route_method("netplan.wifi.scan").ok(), Some(RpcMethod::WifiScan));
    assert!(matches!(
        wifi_scan_request(Some(7), Some(false), Some(800)),
        Ok(Request::WifiScan { if_index: Some(7), refresh: false, timeout_ms: 800 })
    ));
    assert!(matches!(wifi_scan_request(None, None, Some(249)), Err(failure) if failure.code == -32602));
}

#[test]
fn powershell_utf8_bom_can_be_removed_before_parsing() {
    let line = "\u{feff}{\"jsonrpc\":\"2.0\",\"id\":null,\"method\":\"netplan.ping\"}";
    let text = request_text(line, true).unwrap();
    assert_eq!(text, "{\"jsonrpc\":\"2.0\",\"id\":null,\"method\":\"netplan.ping\"}");
    let parsed: Result<serde_json::Value, _> = serde_json::from_str(&text);
    assert!(parsed.is_ok(), "{parsed:?}");
    assert_eq!(request_text("   ", true), None);
    assert_eq!(request_text("\u{feff}{}", false), Some("\u{feff}{}".to_string()));
}

#[test]
fn job_waits_answer_final_states_and_poll_within_the_deadline() {
    let status = |state| Response::JobStatus { job_id: "job-1".into(), state, message: None };
    assert_eq!(job_wait_next(&status(JobState::Succeeded), 0, 100), JobWaitStep::Answer);
    assert_eq!(job_wait_next(&status(JobState::Running), 5000, 100), JobWaitStep::Poll(100));
    assert_eq!(job_wait_next(&status(JobState::Running), 40, 100), JobWaitStep::Poll(40));
    assert_eq!(job_wait_next(&status(JobState::Queued), 0, 100), JobWaitStep::TimedOut);
    let other = Response::Pong { daemon_version: "0.1.1".into(), protocol_version: 1 };
    assert_eq!(job_wait_next(&other, 5000, 100), JobWaitStep::Unexpected);
    assert!(!job_wait_may_poll(0));
    let failure = job_wait_timeout();
    assert_eq!((failure.code, failure.message.as_str()), (-32002, "Job wait timed out"));
}
