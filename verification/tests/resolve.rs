use netplan::config::{
    AdapterConfig, DriverOperation, InterfaceSelector, NetplanConfig, ProtectionConfig, SmbConfig,
};
use netplan::platform::PlatformErrorKind;
use netplan::resolve::{
    resolve_adapter, resolve_wifi_interface, selector_debug_string, selector_matches,
    validate_runtime_protection,
};
use netplan::wifi::NativeWifiInterface;
use netplan::AdapterInfo;

fn adapter(if_index: u32, name: &str, guid: Option<&str>, mac: Option<&str>, description: Option<&str>) -> AdapterInfo {
    AdapterInfo {
        if_index,
        name: name.into(),
        description: description.map(Into::into),
        guid: guid.map(Into::into),
        mac_address: mac.map(Into::into),
        status: "up".into(),
        hardware: true,
        ipv4: Vec::new(),
        ipv6: Vec::new(),
    }
}

fn selector() -> InterfaceSelector {
    InterfaceSelector { if_index: None, name: None, guid: None, mac_address: None, description_contains: None }
}

fn inventory() -> Vec<AdapterInfo> {
    vec![
        adapter(3, "Ethernet", Some("{AAAA-1}"), Some("02-00-00-00-00-03"), Some("Intel(R) Ethernet")),
        adapter(7, "Wi-Fi", Some("{BBBB-2}"), Some("02:00:00:00:00:07"), Some("Realtek WLAN")),
    ]
}

fn native(if_index: u32) -> NativeWifiInterface {
    NativeWifiInterface { guid: u128::from(if_index), if_index, description: "Wi-Fi".into(), state: 1 }
}

#[test]
fn selectors_match_every_supplied_field() {
    let adapters = inventory();
    let by_name = InterfaceSelector { name: Some("ethernet".into()), ..selector() };
    assert!(selector_matches(&by_name, &adapters[0]));
    let by_guid = InterfaceSelector { guid: Some("bbbb-2".into()), ..selector() };
    assert!(selector_matches(&by_guid, &adapters[1]));
    let by_mac = InterfaceSelector { mac_address: Some("02:00:00:00:00:03".into()), ..selector() };
    assert!(selector_matches(&by_mac, &adapters[0]));
    let by_description = InterfaceSelector { description_contains: Some("WLAN".into()), ..selector() };
    assert!(selector_matches(&by_description, &adapters[1]));
    let mixed = InterfaceSelector { if_index: Some(3), name: Some("Wi-Fi".into()), ..selector() };
    assert!(!selector_matches(&mixed, &adapters[0]));
}

#[test]
fn a_selector_resolves_to_its_only_adapter() {
    let adapters = inventory();
    let by_index = InterfaceSelector { if_index: Some(7), ..selector() };
    assert_eq!(resolve_adapter(&adapters, &by_index).ok(), Some(1));
}

#[test]
fn unmatched_and_ambiguous_selectors_are_refused() {
    let adapters = inventory();
    let missing = InterfaceSelector { if_index: Some(9), ..selector() };
    let Err(error) = resolve_adapter(&adapters, &missing) else {
        panic!("no adapter has index 9");
    };
    assert_eq!(error.kind, PlatformErrorKind::NotFound);
    assert_eq!(
        error.message,
        "interface selector did not match any adapter: InterfaceSelector { if_index: Some(9), name: None, guid: None, mac_address: None, description_contains: None }"
    );
    let any = selector();
    let Err(error) = resolve_adapter(&adapters, &any) else {
        panic!("an empty selector matches both adapters");
    };
    assert_eq!(error.kind, PlatformErrorKind::InvalidConfig);
    assert!(error.message.starts_with("interface selector is ambiguous and matched 2 adapters: "));
}

#[test]
fn selector_debug_text_quotes_strings() {
    let s = InterfaceSelector { name: Some("Wi-Fi \"5\"".into()), ..selector() };
    assert_eq!(
        selector_debug_string(&s),
        "InterfaceSelector { if_index: None, name: Some(\"Wi-Fi \\\"5\\\"\"), guid: None, mac_address: None, description_contains: None }"
    );
}

#[test]
fn wifi_interfaces_resolve_through_adapters_or_by_being_alone() {
    let adapters = inventory();
    let interfaces = vec![native(7)];
    let wifi = Some(InterfaceSelector { name: Some("Wi-Fi".into()), ..selector() });
    assert_eq!(resolve_wifi_interface(&adapters, &interfaces, &wifi).ok(), Some(0));
    assert_eq!(resolve_wifi_interface(&adapters, &interfaces, &None).ok(), Some(0));
    let wired = Some(InterfaceSelector { if_index: Some(3), ..selector() });
    let Err(error) = resolve_wifi_interface(&adapters, &interfaces, &wired) else {
        panic!("the wired adapter has no Wi-Fi interface");
    };
    assert_eq!(error.message, "selector resolves to interface if_index=3, which is not exposed by Native Wi-Fi");
    let Err(error) = resolve_wifi_interface(&adapters, &vec![native(7), native(8)], &None) else {
        panic!("two interfaces need a selector");
    };
    assert_eq!(error.kind, PlatformErrorKind::InvalidConfig);
    let Err(error) = resolve_wifi_interface(&adapters, &Vec::new(), &None) else {
        panic!("no interface is available");
    };
    assert_eq!(error.kind, PlatformErrorKind::NotFound);
}

fn config(protect: Vec<InterfaceSelector>, adapters: Vec<AdapterConfig>, drivers: Vec<DriverOperation>) -> NetplanConfig {
    NetplanConfig {
        version: 1,
        protect: ProtectionConfig { management_interfaces: protect },
        identity: None,
        adapters,
        wifi: Vec::new(),
        wifi_actions: Vec::new(),
        smb: SmbConfig { accounts: Vec::new(), shares: Vec::new(), mappings: Vec::new() },
        firewall: None,
        services: Vec::new(),
        drivers,
        hooks: Vec::new(),
    }
}

fn entry(s: InterfaceSelector) -> AdapterConfig {
    AdapterConfig { selector: s, enabled: Some(true), mac_address: None, ipv4: None }
}

#[test]
fn runtime_protection_refuses_protected_targets() {
    let adapters = inventory();
    let protect = vec![InterfaceSelector { if_index: Some(3), ..selector() }];
    let restart = DriverOperation::RestartAdapter {
        selector: InterfaceSelector { name: Some("ETHERNET".into()), ..selector() },
    };
    let Err(error) = validate_runtime_protection(&config(protect.clone(), Vec::new(), vec![restart]), &adapters, &Vec::new())
    else {
        panic!("restarting the protected adapter is refused");
    };
    assert_eq!(error.kind, PlatformErrorKind::InvalidConfig);
    assert_eq!(error.message, "live configuration resolves to protected management interface if_index=3");
    let other = vec![entry(InterfaceSelector { if_index: Some(7), ..selector() })];
    assert!(validate_runtime_protection(&config(protect, other, Vec::new()), &adapters, &Vec::new()).is_ok());
}

#[test]
fn runtime_protection_refuses_two_entries_for_one_adapter() {
    let adapters = inventory();
    let entries = vec![
        entry(InterfaceSelector { if_index: Some(7), ..selector() }),
        entry(InterfaceSelector { name: Some("wi-fi".into()), ..selector() }),
    ];
    let Err(error) = validate_runtime_protection(&config(Vec::new(), entries, Vec::new()), &adapters, &Vec::new()) else {
        panic!("two entries resolve to one adapter");
    };
    assert_eq!(error.message, "multiple adapter entries resolve to if_index=7");
}

#[test]
fn mac_addresses_compare_without_ascii_case() {
    assert_eq!(
        netplan::matcher::canonical_mac_chars("02:00:5e:10:ab:07"),
        netplan::matcher::canonical_mac_chars("02-00-5E-10-AB-07")
    );
}
