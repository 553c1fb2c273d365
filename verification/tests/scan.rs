use netplan::platform::{PlatformError, PlatformErrorKind};
use netplan::scan::{combine_scans, interface_name, scan_targets, sort_networks, InterfaceScan};
use netplan::{AdapterInfo, WifiNetwork};

fn network(ssid: &str, signal_quality: u8, connected: bool, interface_if_index: u32) -> WifiNetwork {
    WifiNetwork {
        interface_if_index,
        interface_name: "Wi-Fi".into(),
        ssid: ssid.into(),
        ssid_hex: String::new(),
        profile_name: None,
        signal_quality,
        security_enabled: true,
        authentication: "wpa2_personal".into(),
        cipher: "ccmp".into(),
        connectable: true,
        not_connectable_reason: None,
        connected,
        bss_count: 1,
    }
}

#[test]
fn networks_are_reported_connected_first_then_by_signal_and_name() {
    let sorted = sort_networks(vec![
        network("b", 50, false, 7),
        network("a", 50, false, 9),
        network("a", 50, false, 7),
        network("z", 10, true, 7),
        network("c", 90, false, 7),
    ]);
    let order: Vec<(String, u32)> = sorted.iter().map(|n| (n.ssid.clone(), n.interface_if_index)).collect();
    assert_eq!(
        order,
        vec![("z".into(), 7), ("c".into(), 7), ("a".into(), 7), ("a".into(), 9), ("b".into(), 7)]
    );
}

#[test]
fn scans_skip_interfaces_whose_radio_is_off() {
    assert_eq!(scan_targets(&vec![7, 12], &vec![false, true], true).ok(), Some((vec![0], false)));
    assert_eq!(scan_targets(&vec![7, 12], &vec![false, false], true).ok(), Some((vec![0, 1], true)));
    let Err(error) = scan_targets(&vec![7, 12], &vec![true, true], true) else {
        panic!("every radio is off");
    };
    assert_eq!(error.kind, PlatformErrorKind::Unsupported);
    assert_eq!(error.message, "Wi-Fi radio is off for Native Wi-Fi interface if_index=7, 12; turn on Wi-Fi and retry");
}

#[test]
fn interfaces_are_named_after_their_adapter() {
    let adapter = |if_index: u32, name: &str| AdapterInfo {
        if_index,
        name: name.into(),
        description: None,
        guid: None,
        mac_address: None,
        status: "up".into(),
        hardware: true,
        ipv4: Vec::new(),
        ipv6: Vec::new(),
    };
    let adapters = vec![adapter(7, "Wi-Fi"), adapter(9, "")];
    assert_eq!(interface_name(&adapters, 7, "Intel AX211"), "Wi-Fi");
    assert_eq!(interface_name(&adapters, 9, "Realtek"), "Realtek");
    assert_eq!(interface_name(&adapters, 3, "Other"), "Other");
}

#[test]
fn networks_equal_in_every_ordering_field_keep_their_order() {
    let mut first = network("lab", 60, false, 7);
    first.bss_count = 1;
    let mut second = network("lab", 60, false, 7);
    second.bss_count = 2;
    let mut third = network("lab", 60, false, 7);
    third.bss_count = 3;
    let sorted = sort_networks(vec![first, network("x", 99, false, 7), second, third]);
    let counts: Vec<(String, u32)> = sorted.iter().map(|n| (n.ssid.clone(), n.bss_count)).collect();
    assert_eq!(counts, vec![("x".into(), 1), ("lab".into(), 1), ("lab".into(), 2), ("lab".into(), 3)]);
}

#[test]
fn a_scan_is_refreshed_only_when_every_requested_scan_completed() {
    let both = |first: bool, second: bool| {
        vec![
            InterfaceScan { wait: Ok(first), networks: Ok(vec![network("a", 40, false, 7)]) },
            InterfaceScan { wait: Ok(second), networks: Ok(vec![network("b", 90, false, 9)]) },
        ]
    };
    let (refreshed, networks) = combine_scans(true, true, both(true, true)).ok().unwrap();
    assert!(refreshed);
    let order: Vec<String> = networks.iter().map(|n| n.ssid.clone()).collect();
    assert_eq!(order, vec!["b".to_string(), "a".to_string()]);
    assert!(!combine_scans(true, true, both(true, false)).ok().unwrap().0);
    assert!(!combine_scans(false, true, both(true, true)).ok().unwrap().0);
    assert!(!combine_scans(false, false, both(false, false)).ok().unwrap().0);
    let failed = PlatformError { kind: PlatformErrorKind::Internal, message: "scan failed".into(), rolled_back: false };
    let outcomes = vec![
        InterfaceScan { wait: Err(failed), networks: Ok(Vec::new()) },
        InterfaceScan { wait: Ok(true), networks: Ok(Vec::new()) },
    ];
    assert_eq!(combine_scans(true, true, outcomes).err().unwrap().message, "scan failed");
}
