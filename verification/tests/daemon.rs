use netplan::config::{HookConfig, HookStage, NetplanConfig, ProtectionConfig, SmbConfig};
use netplan::daemon::{
    adapters_response, network_status_response, wifi_scan_response, ConfigRoute, Daemon,
    JobRecord, Route,
};
use netplan::platform::{
    require_plan_capabilities, ApplyReport, PlatformError, PlatformErrorKind,
};
use netplan::protocol::{ConfigAction, ErrorCode, JobState, Request, Response};
use netplan::{AdapterInfo, Capability, CapabilityState, ConfigFormat, WifiInterfaceStatus, WifiNetwork};

fn hook_config() -> NetplanConfig {
    NetplanConfig {
        version: 1,
        protect: ProtectionConfig { management_interfaces: Vec::new() },
        identity: None,
        adapters: Vec::new(),
        wifi: Vec::new(),
        wifi_actions: Vec::new(),
        smb: SmbConfig { accounts: Vec::new(), shares: Vec::new(), mappings: Vec::new() },
        firewall: None,
        services: Vec::new(),
        drivers: Vec::new(),
        hooks: vec![HookConfig {
            stage: HookStage::BeforeApply,
            program: r"X:\hook.exe".into(),
            args: Vec::new(),
            wait: true,
        }],
    }
}

fn hook_capabilities(state: CapabilityState) -> Vec<Capability> {
    vec![Capability {
        name: "hook.execute".into(),
        state,
        reason: if state != CapabilityState::Available {
            Some("mock hook backend is unavailable".into())
        } else {
            None
        },
    }]
}

fn live_hook_request() -> Request {
    Request::Config {
        action: ConfigAction::Apply,
        format: ConfigFormat::Yaml,
        document: b"version: 1\nhooks:\n  - stage: before_apply\n    program: 'X:\\\\hook.exe'\n".to_vec(),
        dry_run: false,
    }
}

/// Drives a live apply request through the daemon with the given hook
/// capability; returns the answer and the configuration handed to the
/// platform, if any.
fn start_live_apply(daemon: &mut Daemon, state: CapabilityState) -> (Response, Option<NetplanConfig>) {
    let Route::Config { action, dry_run, .. } = daemon.dispatch(live_hook_request()) else {
        panic!("a configuration request needs its document parsed");
    };
    match daemon.config_parsed(action, dry_run, Ok(hook_config()), "job-1".into(), 100) {
        ConfigRoute::Respond(response) => (response, None),
        ConfigRoute::Preflight(config) => {
            let preflight = require_plan_capabilities(&hook_capabilities(state), &config);
            let handed = preflight.is_ok().then(|| config.clone());
            (daemon.preflight_done(&config, preflight, "job-1".into(), 100), handed)
        }
    }
}

fn job_status(daemon: &Daemon, id: &str) -> Response {
    let Route::Respond(response) = daemon.dispatch(Request::JobStatus { job_id: id.into() }) else {
        panic!("job status is answered from the daemon's state");
    };
    response
}

#[test]
fn live_apply_returns_typed_unsupported_before_mutation() {
    let mut daemon = Daemon::new("0.1.1".into(), 1);
    let (response, handed) = start_live_apply(&mut daemon, CapabilityState::DryRun);
    assert!(matches!(response, Response::Error { code: ErrorCode::Unsupported, .. }));
    assert!(handed.is_none());
    assert!(matches!(job_status(&daemon, "job-1"), Response::Error { code: ErrorCode::NotFound, .. }));
}

#[test]
fn successful_live_apply_is_recorded_as_a_queryable_job() {
    let mut daemon = Daemon::new("0.1.1".into(), 1);
    let (response, handed) = start_live_apply(&mut daemon, CapabilityState::Available);
    let Response::Apply { job_id, state, .. } = response else {
        panic!("expected apply response");
    };
    assert_eq!(state, JobState::Running);
    assert!(handed.is_some());
    daemon.apply_finished(&job_id, Ok(ApplyReport { message: "one operation applied".into() }), 200);
    assert!(matches!(
        job_status(&daemon, &job_id),
        Response::JobStatus { state: JobState::Succeeded, message: Some(message), .. }
            if message == "one operation applied"
    ));
}

#[test]
fn rollback_failure_state_is_preserved_in_the_job() {
    let mut daemon = Daemon::new("0.1.1".into(), 1);
    let (response, _) = start_live_apply(&mut daemon, CapabilityState::Available);
    let Response::Apply { job_id, state, .. } = response else {
        panic!("expected apply response");
    };
    assert_eq!(state, JobState::Running);
    daemon.apply_finished(
        &job_id,
        Err(PlatformError {
            kind: PlatformErrorKind::Internal,
            message: "apply failed; completed mutations were restored".into(),
            rolled_back: true,
        }),
        200,
    );
    assert!(matches!(job_status(&daemon, &job_id), Response::JobStatus { state: JobState::RolledBack, .. }));
}

#[test]
fn daemon_status_reports_job_counts() {
    let mut daemon = Daemon::new("0.1.1".into(), 1);
    daemon.jobs.insert(
        "job-1".into(),
        JobRecord { state: JobState::Succeeded, message: None, created_at_unix_ms: 10, updated_at_unix_ms: 20 },
    );
    assert!(matches!(daemon.dispatch(Request::DaemonStatus), Route::Status));
    assert!(matches!(
        daemon.status(5),
        Response::DaemonStatus { total_jobs: 1, succeeded_jobs: 1, running_jobs: 0, uptime_ms: 5, .. }
    ));
}

#[test]
fn job_list_filters_orders_and_limits_results() {
    let mut daemon = Daemon::new("0.1.1".into(), 1);
    daemon.jobs.insert(
        "older".into(),
        JobRecord { state: JobState::Succeeded, message: None, created_at_unix_ms: 10, updated_at_unix_ms: 11 },
    );
    daemon.jobs.insert(
        "newer".into(),
        JobRecord {
            state: JobState::Succeeded,
            message: Some("done".into()),
            created_at_unix_ms: 20,
            updated_at_unix_ms: 21,
        },
    );
    daemon.jobs.insert(
        "failed".into(),
        JobRecord {
            state: JobState::Failed,
            message: Some("failed".into()),
            created_at_unix_ms: 30,
            updated_at_unix_ms: 31,
        },
    );
    let Route::Respond(response) = daemon.dispatch(Request::ListJobs { state: Some(JobState::Succeeded), limit: 1 })
    else {
        panic!("job listing is answered from the daemon's state");
    };
    assert!(matches!(
        response,
        Response::Jobs { jobs, total: 2 } if jobs.len() == 1 && jobs[0].job_id == "newer"
    ));
}

fn wifi_adapter() -> AdapterInfo {
    AdapterInfo {
        if_index: 7,
        name: "Wi-Fi".into(),
        description: None,
        guid: None,
        mac_address: None,
        status: "up".into(),
        hardware: true,
        ipv4: Vec::new(),
        ipv6: Vec::new(),
    }
}

fn wifi_interface() -> WifiInterfaceStatus {
    WifiInterfaceStatus {
        if_index: 7,
        name: "Wi-Fi".into(),
        guid: None,
        state: "connected".into(),
        profile_name: Some("Lab".into()),
        ssid: Some("Lab".into()),
        ssid_hex: Some("4C6162".into()),
        signal_quality: Some(80),
        security_enabled: Some(true),
        authentication: Some("wpa2_personal".into()),
        cipher: Some("ccmp".into()),
        rx_rate_kbps: Some(100_000),
        tx_rate_kbps: Some(100_000),
    }
}

#[test]
fn network_status_combines_adapter_and_wifi_state() {
    let daemon = Daemon::new("0.1.1".into(), 1);
    assert!(matches!(daemon.dispatch(Request::NetworkStatus), Route::NetworkStatus));
    let response = network_status_response(Ok(vec![wifi_adapter()]), Ok(vec![wifi_interface()]), 50);
    assert!(matches!(
        response,
        Response::NetworkStatus { adapters, wifi_interfaces, wifi_error: None, captured_at_unix_ms: 50 }
            if adapters.len() == 1 && wifi_interfaces.len() == 1
    ));
}

#[test]
fn network_status_reports_a_wifi_failure_beside_the_adapters() {
    let response = network_status_response(
        Ok(vec![wifi_adapter()]),
        Err(PlatformError::unsupported("native Wi-Fi status is unavailable on this platform".into())),
        50,
    );
    assert!(matches!(
        response,
        Response::NetworkStatus { adapters, wifi_interfaces, wifi_error: Some(error), .. }
            if adapters.len() == 1 && wifi_interfaces.is_empty()
                && error == "native Wi-Fi status is unavailable on this platform"
    ));
}

#[test]
fn wifi_scan_returns_networks_and_validates_timeout() {
    let daemon = Daemon::new("0.1.1".into(), 1);
    let Route::WifiScan { if_index, refresh, timeout_ms } =
        daemon.dispatch(Request::WifiScan { if_index: Some(7), refresh: true, timeout_ms: 4_000 })
    else {
        panic!("a valid scan needs the platform");
    };
    assert_eq!((if_index, refresh, timeout_ms), (Some(7), true, 4_000));
    let response = wifi_scan_response(Ok((
        true,
        vec![WifiNetwork {
            interface_if_index: 7,
            interface_name: "Wi-Fi".into(),
            ssid: "Lab".into(),
            ssid_hex: "4C6162".into(),
            profile_name: Some("Lab".into()),
            signal_quality: 80,
            security_enabled: true,
            authentication: "wpa2_personal".into(),
            cipher: "ccmp".into(),
            connectable: true,
            not_connectable_reason: None,
            connected: true,
            bss_count: 1,
        }],
    )));
    assert!(matches!(
        response,
        Response::WifiNetworks { refreshed: true, networks } if networks.len() == 1 && networks[0].ssid == "Lab"
    ));

    let invalid = daemon.dispatch(Request::WifiScan { if_index: None, refresh: true, timeout_ms: 0 });
    assert!(matches!(
        invalid,
        Route::Respond(Response::Error { code: ErrorCode::InvalidRequest, message })
            if message == "Wi-Fi scan timeout_ms must be between 250 and 15000"
    ));
}

#[test]
fn ping_reports_the_daemon_and_protocol_versions() {
    let daemon = Daemon::new("0.1.1".into(), 1);
    assert!(matches!(
        daemon.dispatch(Request::Ping),
        Route::Respond(Response::Pong { daemon_version, protocol_version: 1 }) if daemon_version == "0.1.1"
    ));
}

#[test]
fn unknown_job_is_a_not_found_rejection_naming_the_job() {
    let daemon = Daemon::new("0.1.1".into(), 1);
    assert_eq!(
        job_status(&daemon, "missing"),
        Response::Error { code: ErrorCode::NotFound, message: "job \"missing\" does not exist".into() }
    );
}

#[test]
fn dry_run_apply_is_recorded_as_succeeded() {
    let mut daemon = Daemon::new("0.1.1".into(), 1);
    let route = daemon.config_parsed(ConfigAction::Apply, true, Ok(hook_config()), "dry".into(), 7);
    assert!(matches!(
        route,
        ConfigRoute::Respond(Response::Apply { ref job_id, state: JobState::Succeeded, ref operations })
            if job_id == "dry" && operations.len() == 1
    ));
    assert_eq!(
        job_status(&daemon, "dry"),
        Response::JobStatus {
            job_id: "dry".into(),
            state: JobState::Succeeded,
            message: Some("dry-run completed; no system state was changed".into()),
        }
    );
}

#[test]
fn invalid_documents_are_reported_by_action() {
    let mut daemon = Daemon::new("0.1.1".into(), 1);
    let error = netplan::Error::Validation("document is wrong".into());
    let validate = daemon.config_parsed(ConfigAction::Validate, false, Err(error.clone()), "x".into(), 1);
    assert!(matches!(
        validate,
        ConfigRoute::Respond(Response::Validation { valid: false, ref issues })
            if issues.len() == 1 && issues[0].path.is_none() && issues[0].message == "configuration validation failed: document is wrong"
    ));
    let plan = daemon.config_parsed(ConfigAction::Plan, false, Err(error), "x".into(), 1);
    assert!(matches!(
        plan,
        ConfigRoute::Respond(Response::Error { code: ErrorCode::InvalidConfig, ref message })
            if message == "configuration validation failed: document is wrong"
    ));
}

#[test]
fn adapter_inventory_failure_is_internal() {
    let response = adapters_response(Err(netplan::Error::Protocol("gone".into())));
    assert!(matches!(response, Response::Error { code: ErrorCode::Internal, .. }));
}
