use netplan::config::{SecretRef, WifiAuthentication, WifiProfile};
use netplan::platform::{PlatformError, PlatformErrorKind};
use netplan::wifi::{connection_timeout, no_connection, profile_reached, scan_wait_result, ScanWait};
use netplan::wifi::{
    classify_radio_state, effective_interface_state, profile_xml, select_wifi_interfaces,
    wlan_result, NativeWifiInterface, PhyRadio, RadioState, ERROR_RADIO_OFF, RADIO_OFF, RADIO_ON,
};

const INTERFACE_STATE_DISCONNECTED: i32 = 4;
const RADIO_UNKNOWN: i32 = 0;

fn native_interface(if_index: u32) -> NativeWifiInterface {
    NativeWifiInterface {
        guid: u128::from(if_index),
        if_index,
        description: format!("Wi-Fi {if_index}"),
        state: INTERFACE_STATE_DISCONNECTED,
    }
}

#[test]
fn wifi_scan_without_selector_targets_every_native_interface() {
    let interfaces = vec![native_interface(7), native_interface(12)];
    let Ok(selected) = select_wifi_interfaces(&interfaces, None) else {
        panic!("all native interfaces should be selected");
    };
    assert_eq!(
        selected.iter().map(|position| interfaces[*position].if_index).collect::<Vec<_>>(),
        vec![7, 12]
    );
}

#[test]
fn wifi_scan_if_index_targets_one_exact_native_interface() {
    let interfaces = vec![native_interface(7), native_interface(12)];
    let Ok(selected) = select_wifi_interfaces(&interfaces, Some(12)) else {
        panic!("the requested native interface should be selected");
    };
    assert_eq!(selected.len(), 1);
    assert_eq!(interfaces[selected[0]].if_index, 12);
}

#[test]
fn wifi_scan_rejects_an_index_outside_native_wifi_inventory() {
    let interfaces = vec![native_interface(7)];
    let Err(error) = select_wifi_interfaces(&interfaces, Some(99)) else {
        panic!("a non-native interface index should be rejected");
    };
    assert_eq!(error.kind, PlatformErrorKind::NotFound);
    assert!(error.message.contains("if_index=99"));
}

fn radio_state(software: i32, hardware: i32) -> RadioState {
    classify_radio_state(1, &vec![PhyRadio { software, hardware }])
}

#[test]
fn radio_state_distinguishes_on_software_off_hardware_off_and_unknown() {
    assert_eq!(radio_state(RADIO_ON, RADIO_ON), RadioState::On);
    assert_eq!(radio_state(RADIO_OFF, RADIO_ON), RadioState::Off);
    assert_eq!(radio_state(RADIO_ON, RADIO_OFF), RadioState::Off);
    assert_eq!(radio_state(RADIO_UNKNOWN, RADIO_ON), RadioState::Unknown);
}

#[test]
fn radio_power_error_is_actionable_and_not_internal() {
    let Err(error) = wlan_result("WlanScan", ERROR_RADIO_OFF) else {
        panic!("a powered-off radio must not be reported as success");
    };
    assert_eq!(error.kind, PlatformErrorKind::Unsupported);
    assert!(error.message.contains("Wi-Fi radio is off"));
    assert!(error.message.contains("turn on Wi-Fi"));
}

#[test]
fn powered_off_radio_overrides_disconnected_interface_state() {
    assert_eq!(effective_interface_state(INTERFACE_STATE_DISCONNECTED, RadioState::Off), "radio_off");
    assert_eq!(effective_interface_state(INTERFACE_STATE_DISCONNECTED, RadioState::On), "disconnected");
}

#[test]
fn profile_xml_escapes_values_and_never_debug_formats_secrets() {
    let profile = WifiProfile {
        selector: None,
        name: Some("name<&".into()),
        ssid: "ssid<&".into(),
        authentication: WifiAuthentication::Wpa2Personal,
        psk: Some(SecretRef::Literal("password<&123".into())),
        auto_connect: true,
        hidden: true,
    };
    let Ok(xml) = profile_xml(&profile, Some("password<&123".into())) else {
        panic!("test profile should produce XML");
    };
    assert!(xml.contains("<name>name&lt;&amp;</name>"));
    assert!(xml.contains("<name>ssid&lt;&amp;</name>"));
    assert!(xml.contains("<keyMaterial>password&lt;&amp;123</keyMaterial>"));
    assert!(xml.contains("<nonBroadcast>true</nonBroadcast>"));
}

use netplan::wifi::{decode_network, interface_status, AvailableNetworkRecord, ConnectionRecord};

fn lab_ssid() -> Vec<u8> {
    let mut buffer = vec![0u8; 32];
    buffer[..3].copy_from_slice(b"Lab");
    buffer
}

#[test]
fn scan_records_decode_into_networks() {
    let record = AvailableNetworkRecord {
        ssid: lab_ssid(),
        ssid_length: 3,
        profile_name: String::new(),
        signal_quality: 120,
        security_enabled: true,
        authentication: 7,
        cipher: 4,
        connectable: false,
        not_connectable_reason: 0x8001,
        flags: 1,
        bss_count: 2,
    };
    let Ok(network) = decode_network(&record, 7, "Wi-Fi") else {
        panic!("the record is well formed");
    };
    assert_eq!(network.ssid, "Lab");
    assert_eq!(network.ssid_hex, "4C6162");
    assert_eq!(network.profile_name, None);
    assert_eq!(network.signal_quality, 100);
    assert_eq!(network.not_connectable_reason, Some(0x8001));
    assert!(network.connected);
    let bad = AvailableNetworkRecord { ssid_length: 33, ..record };
    assert!(matches!(decode_network(&bad, 7, "Wi-Fi"), Err(e) if e.kind == PlatformErrorKind::Internal));
}

#[test]
fn a_connected_interface_reports_its_connection() {
    let connection = ConnectionRecord {
        state: 1,
        profile_name: "Lab".into(),
        ssid: lab_ssid(),
        ssid_length: 3,
        signal_quality: 81,
        security_enabled: true,
        authentication: 7,
        cipher: 4,
        rx_rate_kbps: 866_700,
        tx_rate_kbps: 866_700,
    };
    let Ok(status) = interface_status(7, "Wi-Fi", None, 1, RadioState::On, Some(connection)) else {
        panic!("the record is well formed");
    };
    assert_eq!(status.state, "connected");
    assert_eq!(status.ssid.as_deref(), Some("Lab"));
    assert_eq!(status.profile_name.as_deref(), Some("Lab"));
    assert_eq!(status.signal_quality, Some(81));
    assert_eq!(status.rx_rate_kbps, Some(866_700));
}

#[test]
fn a_powered_off_radio_reports_no_connection() {
    let Ok(status) = interface_status(7, "Wi-Fi", Some("{G}".into()), INTERFACE_STATE_DISCONNECTED, RadioState::Off, None) else {
        panic!("no record to decode");
    };
    assert_eq!(status.state, "radio_off");
    assert_eq!(status.ssid, None);
    assert_eq!(status.guid.as_deref(), Some("{G}"));
}

#[test]
fn connection_waits_compare_profiles_without_case() {
    assert!(profile_reached(&None, &None));
    assert!(profile_reached(&Some("Office".into()), &Some("OFFICE".into())));
    assert!(!profile_reached(&Some("Office".into()), &None));
    assert!(no_connection(1168));
    assert!(!no_connection(0));
    assert_eq!(
        connection_timeout().message,
        "Native Wi-Fi did not reach the requested connection state within 30 seconds"
    );
}

#[test]
fn scan_waits_report_refresh_and_failures() {
    assert_eq!(scan_wait_result(Ok(()), ScanWait::Complete, Ok(())).ok(), Some(true));
    assert_eq!(scan_wait_result(Ok(()), ScanWait::TimedOut, Ok(())).ok(), Some(false));
    let error = scan_wait_result(Ok(()), ScanWait::Failed(7), Ok(())).err().unwrap();
    assert_eq!(error.message, "Native Wi-Fi scan failed with WLAN reason code 7");
    let unregister = PlatformError { kind: PlatformErrorKind::Internal, message: "x".into(), rolled_back: false };
    assert_eq!(scan_wait_result(Ok(()), ScanWait::Complete, Err(unregister)).err().unwrap().message, "x");
}

#[test]
fn profile_calls_report_rejections_and_tolerate_missing_profiles() {
    assert!(netplan::wifi::set_profile_result(0, 0).is_ok());
    let rejected = netplan::wifi::set_profile_result(0, 524_289).err().unwrap();
    assert_eq!(rejected.kind, PlatformErrorKind::InvalidConfig);
    assert_eq!(rejected.message, "WlanSetProfile rejected the profile with WLAN reason code 524289");
    assert_eq!(
        netplan::wifi::set_profile_result(5, 0).err().unwrap().message,
        "WlanSetProfile failed with Windows error 5"
    );
    assert!(netplan::wifi::profile_missing(1168));
    assert!(netplan::wifi::profile_deleted(1168).is_ok());
    assert_eq!(netplan::wifi::profile_deleted(87).err().unwrap().kind, PlatformErrorKind::InvalidConfig);
    let refused = netplan::wifi::radio_off_scan().err().unwrap();
    assert_eq!(refused.kind, PlatformErrorKind::Unsupported);
    assert_eq!(refused.message, "WlanScan is unavailable because the Wi-Fi radio is off; turn on Wi-Fi and retry");
}
