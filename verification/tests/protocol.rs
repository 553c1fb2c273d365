use netplan::protocol::{
    decode_request, decode_response, encode_request, encode_response, ConfigAction, Frame,
    JobState, JobSummary, PayloadType, Request, Response,
};
use netplan::{AdapterInfo, ConfigFormat, Error, IpAddressInfo, WifiInterfaceStatus, WifiNetwork};

#[test]
fn request_round_trip_is_typed_and_correlated() {
    let request = Request::Config {
        action: ConfigAction::Plan,
        format: ConfigFormat::Yaml,
        document: b"version: 1".to_vec(),
        dry_run: true,
    };
    let encoded = encode_request(42, &request);
    let decoded = decode_request(&encoded);
    assert_eq!(decoded.ok(), Some(Frame { request_id: 42, payload: request }));
}

#[test]
fn daemon_status_request_round_trip_is_typed_and_correlated() {
    let request = Request::DaemonStatus;
    let encoded = encode_request(43, &request);
    let decoded = decode_request(&encoded);
    assert_eq!(decoded.ok(), Some(Frame { request_id: 43, payload: request }));
}

#[test]
fn additive_payloads_preserve_v1_union_discriminators() {
    assert_eq!(PayloadType::ErrorResponse.code(), 13);
    assert_eq!(PayloadType::DaemonStatusRequest.code(), 14);
    assert_eq!(PayloadType::ListJobsResponse.code(), 17);
    assert_eq!(PayloadType::NetworkStatusRequest.code(), 18);
    assert_eq!(PayloadType::WifiScanResponse.code(), 23);
}

#[test]
fn job_list_response_round_trip_preserves_metadata() {
    let response = Response::Jobs {
        jobs: vec![JobSummary {
            job_id: "job-7".into(),
            state: JobState::RolledBack,
            message: Some("restored captured state".into()),
            created_at_unix_ms: 1_700_000_000_000,
            updated_at_unix_ms: 1_700_000_000_100,
        }],
        total: 1,
    };
    let encoded = encode_response(44, &response);
    let decoded = decode_response(&encoded);
    assert_eq!(decoded.ok().map(|frame| frame.payload), Some(response));
}

#[test]
fn wifi_scan_request_round_trip_preserves_refresh_controls() {
    let request = Request::WifiScan { if_index: Some(7), refresh: true, timeout_ms: 4_000 };
    let encoded = encode_request(45, &request);
    let decoded = decode_request(&encoded);
    assert_eq!(decoded.ok(), Some(Frame { request_id: 45, payload: request }));
}

#[test]
fn network_status_response_round_trip_preserves_wifi_connection() {
    let response = Response::NetworkStatus {
        captured_at_unix_ms: 1_700_000_000_000,
        adapters: vec![AdapterInfo {
            if_index: 7,
            name: "Wi-Fi".into(),
            description: Some("Test WLAN".into()),
            guid: Some("{00000000-0000-0000-0000-000000000007}".into()),
            mac_address: Some("02-00-00-00-00-07".into()),
            status: "up".into(),
            hardware: true,
            ipv4: Vec::new(),
            ipv6: Vec::new(),
        }],
        wifi_interfaces: vec![WifiInterfaceStatus {
            if_index: 7,
            name: "Wi-Fi".into(),
            guid: Some("{00000000-0000-0000-0000-000000000007}".into()),
            state: "connected".into(),
            profile_name: Some("Lab".into()),
            ssid: Some("Lab".into()),
            ssid_hex: Some("4C6162".into()),
            signal_quality: Some(81),
            security_enabled: Some(true),
            authentication: Some("wpa2_personal".into()),
            cipher: Some("ccmp".into()),
            rx_rate_kbps: Some(866_700),
            tx_rate_kbps: Some(866_700),
        }],
        wifi_error: None,
    };
    let encoded = encode_response(46, &response);
    let decoded = decode_response(&encoded);
    assert_eq!(decoded.ok().map(|frame| frame.payload), Some(response));
}

#[test]
fn wifi_scan_response_round_trip_preserves_network_metadata() {
    let response = Response::WifiNetworks {
        refreshed: true,
        networks: vec![WifiNetwork {
            interface_if_index: 7,
            interface_name: "Wi-Fi".into(),
            ssid: "Lab".into(),
            ssid_hex: "4C6162".into(),
            profile_name: Some("Lab".into()),
            signal_quality: 90,
            security_enabled: true,
            authentication: "wpa3_sae".into(),
            cipher: "ccmp".into(),
            connectable: true,
            not_connectable_reason: None,
            connected: true,
            bss_count: 2,
        }],
    };
    let encoded = encode_response(47, &response);
    let decoded = decode_response(&encoded);
    assert_eq!(decoded.ok().map(|frame| frame.payload), Some(response));
}

#[test]
fn response_round_trip_preserves_adapter_data() {
    let response = Response::Adapters(vec![AdapterInfo {
        if_index: 7,
        name: "Ethernet".into(),
        description: Some("Test NIC".into()),
        guid: Some("{00000000-0000-0000-0000-000000000007}".into()),
        mac_address: Some("02-00-00-00-00-07".into()),
        status: "up".into(),
        hardware: true,
        ipv4: vec![IpAddressInfo { address: "192.0.2.10".into(), prefix_length: 24 }],
        ipv6: Vec::new(),
    }]);
    let encoded = encode_response(9, &response);
    let decoded = decode_response(&encoded);
    assert_eq!(decoded.ok().map(|frame| frame.payload), Some(response));
}

#[test]
fn corrupt_identifier_is_rejected_before_dispatch() {
    let mut encoded = encode_request(1, &Request::Ping);
    if encoded.len() > 7 {
        encoded[4..8].fill(0);
    }
    assert!(matches!(decode_request(&encoded), Err(Error::Protocol(_))));
}

#[test]
fn frame_reader_rejects_oversized_prefix() {
    let size = u32::try_from(netplan::protocol::MAX_FRAME_SIZE + 1).unwrap_or(u32::MAX);
    let prefix = size.to_le_bytes();
    let announced = u32::from_le_bytes(prefix);
    assert!(matches!(netplan::protocol::check_body_length(announced), Err(Error::Protocol(_))));
    assert!(matches!(netplan::protocol::check_body_length(0), Err(Error::Protocol(_))));
    assert_eq!(netplan::protocol::check_body_length(64).ok(), Some(64));
}

#[test]
fn frames_too_short_for_an_identifier_are_protocol_errors() {
    for body in 1..8u32 {
        let mut frame = body.to_le_bytes().to_vec();
        frame.resize(4 + body as usize, 0);
        let request = decode_request(&frame);
        assert!(matches!(&request, Err(Error::Protocol(m)) if m == "missing PNET file identifier"), "{request:?}");
        assert!(matches!(decode_response(&frame), Err(Error::Protocol(_))));
    }
}
