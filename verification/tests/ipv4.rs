use netplan::config::{IpAddress, Ipv4Config, Ipv4Network};
use netplan::ipv4::{ipv4_steps, Ipv4Snapshot, Ipv4Step};
use netplan::platform::PlatformErrorKind;
use netplan::IpAddressInfo;

fn snapshot() -> Ipv4Snapshot {
    Ipv4Snapshot {
        dhcp_enabled: false,
        manual_ipv4: vec![IpAddressInfo { address: "192.0.2.10".into(), prefix_length: 24 }],
        gateways: vec![0xC000_0201],
        dns: vec![IpAddress::V4(0x0808_0808)],
        wins: Vec::new(),
        dns_from_dhcp: false,
        wins_from_dhcp: false,
    }
}

fn network(addr: u32, prefix: u8) -> Ipv4Network {
    match Ipv4Network::new(addr, prefix) {
        Some(n) => n,
        None => panic!("prefix fits"),
    }
}

#[test]
fn dhcp_takes_over_a_static_adapter() {
    let steps = ipv4_steps(&snapshot(), &Ipv4Config::Dhcp { dns_from_dhcp: true });
    assert_eq!(
        steps.ok(),
        Some(vec![Ipv4Step::EnableDhcp, Ipv4Step::RemoveCaptured, Ipv4Step::DnsFromDhcp, Ipv4Step::WinsFromDhcp])
    );
}

#[test]
fn a_matching_static_configuration_changes_nothing() {
    let config = Ipv4Config::Static {
        addresses: vec![network(0xC000_020A, 24)],
        gateways: vec![0xC000_0201],
        dns: vec![IpAddress::V4(0x0808_0808)],
        wins: Vec::new(),
    };
    assert_eq!(ipv4_steps(&snapshot(), &config).ok(), Some(Vec::new()));
}

#[test]
fn a_new_static_configuration_sets_every_part_in_order() {
    let config = Ipv4Config::Static {
        addresses: vec![network(0xC000_020B, 24), network(0xC000_020C, 24)],
        gateways: vec![0xC000_0201, 0xC000_0202],
        dns: Vec::new(),
        wins: Vec::new(),
    };
    assert_eq!(
        ipv4_steps(&snapshot(), &config).ok(),
        Some(vec![
            Ipv4Step::SetPrimary,
            Ipv4Step::AddAddress(1),
            Ipv4Step::AddGateway(1),
            Ipv4Step::SetDns,
            Ipv4Step::SetWins
        ])
    );
}

#[test]
fn a_static_configuration_needs_an_address() {
    let config = Ipv4Config::Static { addresses: Vec::new(), gateways: Vec::new(), dns: Vec::new(), wins: Vec::new() };
    let Err(error) = ipv4_steps(&snapshot(), &config) else {
        panic!("no address to set");
    };
    assert_eq!(error.kind, PlatformErrorKind::InvalidConfig);
    assert_eq!(error.message, "static IPv4 plan contains no addresses");
}
