use netplan::protocol::Response;
use netplan::render::render_human;
use netplan::{AdapterInfo, IpAddressInfo};

const HUMAN_OUTPUT_WIDTH: usize = 88;

#[test]
fn human_output_is_readable_and_not_json() {
    let rendered = render_human(Response::Pong { daemon_version: "0.1.1".into(), protocol_version: 1 });
    assert!(matches!(
        rendered,
        Ok(output)
            if output.starts_with("PE Netplan daemon is ready")
                && output.contains("Daemon version")
                && !output.trim_start().starts_with('{')
    ));
}

#[test]
fn adapter_cards_include_identity_and_addresses() {
    let rendered = render_human(Response::Adapters(vec![AdapterInfo {
        if_index: 7,
        name: "Ethernet".into(),
        description: Some("Test adapter".into()),
        guid: None,
        mac_address: Some("02-00-00-00-00-07".into()),
        status: "up".into(),
        hardware: true,
        ipv4: vec![IpAddressInfo { address: "192.0.2.7".into(), prefix_length: 24 }],
        ipv6: Vec::new(),
    }]));
    assert!(matches!(
        rendered,
        Ok(output)
            if output.contains("Adapters (1)")
                && output.contains("Ethernet")
                && output.contains("192.0.2.7/24")
                && output.contains("Test adapter")
    ));
}

#[test]
fn adapter_cards_keep_multiple_ipv6_addresses_inside_the_human_width() {
    let rendered = render_human(Response::Adapters(vec![AdapterInfo {
        if_index: 6,
        name: "Ethernet 2".into(),
        description: Some("Realtek Gaming 2.5GbE Family Controller".into()),
        guid: None,
        mac_address: Some("1C-86-0B-36-8B-31".into()),
        status: "up".into(),
        hardware: true,
        ipv4: vec![IpAddressInfo { address: "192.168.1.7".into(), prefix_length: 24 }],
        ipv6: vec![
            IpAddressInfo { address: "2408:821b:2520:6890:70b:3eb5:3152:542e".into(), prefix_length: 64 },
            IpAddressInfo { address: "2408:821b:2520:6890:90f3:f16a:bc15:92f".into(), prefix_length: 128 },
            IpAddressInfo { address: "fe80::fdef:20b2:2635:2594".into(), prefix_length: 64 },
        ],
    }]));
    let output = rendered.unwrap_or_default();
    assert!(output.contains("\n    IPv4"));
    assert!(output.contains("\n    IPv6"));
    assert!(
        output.lines().all(|line| line.chars().count() <= HUMAN_OUTPUT_WIDTH),
        "human output exceeded {HUMAN_OUTPUT_WIDTH} columns:\n{output}"
    );
}

#[test]
fn empty_sections_have_an_explicit_message() {
    assert_eq!(
        render_human(Response::Capabilities(Vec::new())),
        Ok("Capabilities (0)\n  No capabilities reported.".into())
    );
}
