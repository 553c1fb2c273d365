use netplan::rpc::{select_adapter, AdapterSelection};
use netplan::{Capability, CapabilityState};
use netplan::protocol::{ConfigAction, Request};
use netplan::rpc::{
    config_rpc_request, envelope_problem, example_format, method_name_str, methods, route_method, RpcMethod,
};
use netplan::ConfigFormat;

#[test]
fn every_listed_method_routes_to_itself() {
    let all = methods();
    assert_eq!(all.len(), 19);
    for method in all {
        assert_eq!(route_method(method_name_str(method)).ok(), Some(method));
    }
    assert_eq!(method_name_str(RpcMethod::JobWait), "netplan.job.wait");
}

#[test]
fn unlisted_method_names_are_not_found() {
    let failure = route_method("netplan.reboot").err().unwrap();
    assert_eq!(failure.code, -32601);
    assert_eq!(failure.message, "Method not found");
    assert_eq!(failure.data, None);
}

#[test]
fn example_format_defaults_to_yaml() {
    assert_eq!(example_format(None).ok(), Some(false));
    assert_eq!(example_format(Some("yml")).ok(), Some(false));
    assert_eq!(example_format(Some("json")).ok(), Some(true));
    let failure = example_format(Some("toml")).err().unwrap();
    assert_eq!(failure.code, -32602);
    assert_eq!(failure.data.as_deref(), Some("example format must be yaml or json, not \"toml\""));
}

#[test]
fn config_requests_default_to_auto_and_dry_run() {
    let request = config_rpc_request(ConfigAction::Apply, None, "version: 1".into(), None).ok();
    assert_eq!(
        request,
        Some(Request::Config {
            action: ConfigAction::Apply,
            format: ConfigFormat::Auto,
            document: b"version: 1".to_vec(),
            dry_run: true,
        })
    );
    assert_eq!(config_rpc_request(ConfigAction::Plan, Some("xml"), String::new(), None).err().unwrap().code, -32602);
}

#[test]
fn envelopes_need_a_valid_id_and_version() {
    let failure = envelope_problem(false, "2.0").unwrap();
    assert_eq!(failure.code, -32600);
    assert_eq!(failure.data.as_deref(), Some("id must be a string, number, or null"));
    let failure = envelope_problem(true, "1.0").unwrap();
    assert_eq!(failure.message, "Invalid Request");
    assert_eq!(failure.data, None);
    assert!(envelope_problem(true, "2.0").is_none());
}

fn adapter(if_index: u32, name: &str) -> netplan::AdapterInfo {
    netplan::AdapterInfo {
        if_index,
        name: name.into(),
        description: None,
        guid: None,
        mac_address: None,
        status: "up".into(),
        hardware: true,
        ipv4: Vec::new(),
        ipv6: Vec::new(),
    }
}

fn by_name(name: &str) -> netplan::cli::AdapterSelectorParams {
    netplan::cli::AdapterSelectorParams {
        if_index: None,
        name: Some(name.into()),
        guid: None,
        mac_address: None,
        description_contains: None,
    }
}

#[test]
fn adapter_lookup_distinguishes_none_one_and_many() {
    let adapters = vec![adapter(3, "Ethernet"), adapter(4, "Wi-Fi"), adapter(5, "ethernet")];
    assert_eq!(select_adapter(&adapters, &by_name("wi-fi")), AdapterSelection::Found(1));
    assert_eq!(select_adapter(&adapters, &by_name("ETHERNET")), AdapterSelection::Ambiguous(vec![0, 2]));
    assert_eq!(select_adapter(&adapters, &by_name("Bluetooth")), AdapterSelection::NotFound);
}

#[test]
fn capability_lookup_ignores_case() {
    let caps = vec![
        Capability { name: "ipv4".into(), state: CapabilityState::Available, reason: None },
        Capability { name: "wifi".into(), state: CapabilityState::Unavailable, reason: Some("no WLAN".into()) },
    ];
    assert_eq!(netplan::rpc::find_capability(&caps, "WiFi"), Some(1));
    assert_eq!(netplan::rpc::find_capability(&caps, "smb"), None);
}
