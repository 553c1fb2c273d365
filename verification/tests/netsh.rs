use netplan::config::{IpAddress, Ipv4Config, Ipv4Network};
use netplan::ipv4::{step_commands, Ipv4Snapshot, Ipv4Step, LiveAdapter};
use netplan::netsh::{adapter_admin_args, dns_servers, firewall_profile, wins_servers};
use netplan::platform::PlatformErrorKind;
use netplan::restore::{restore_keys, NetworkRestore};
use netplan::IpAddressInfo;

fn snapshot() -> Ipv4Snapshot {
    Ipv4Snapshot {
        dhcp_enabled: false,
        manual_ipv4: vec![
            IpAddressInfo { address: "192.0.2.10".into(), prefix_length: 24 },
            IpAddressInfo { address: "192.0.2.11".into(), prefix_length: 24 },
        ],
        gateways: vec![0xC000_0201],
        dns: vec![IpAddress::V4(0x0808_0808)],
        wins: Vec::new(),
        dns_from_dhcp: false,
        wins_from_dhcp: false,
    }
}

fn network(addr: u32, prefix: u8) -> Ipv4Network {
    match Ipv4Network::new(addr, prefix) {
        Some(n) => n,
        None => panic!("prefix fits"),
    }
}

fn words(list: &[&str]) -> Vec<String> {
    list.iter().map(|w| w.to_string()).collect()
}

#[test]
fn adapter_admin_state_arguments() {
    assert_eq!(
        adapter_admin_args("Ethernet 2", false),
        words(&["interface", "set", "interface", "name=Ethernet 2", "admin=disabled"])
    );
    assert_eq!(firewall_profile("allprofiles", true), words(&["advfirewall", "set", "allprofiles", "state", "on"]));
}

#[test]
fn dns_servers_are_set_per_family_with_positions() {
    let servers = vec![IpAddress::V4(0x0101_0101), IpAddress::V6(1), IpAddress::V4(0x0808_0808)];
    let commands = dns_servers(7, &servers);
    assert_eq!(
        commands,
        vec![
            words(&[
                "interface", "ipv4", "set", "dnsservers", "name=7", "source=static", "address=1.1.1.1",
                "validate=no",
            ]),
            words(&["interface", "ipv4", "add", "dnsservers", "name=7", "address=8.8.8.8", "index=2", "validate=no"]),
            words(&["interface", "ipv6", "set", "dnsservers", "name=7", "source=static", "address=::1", "validate=no"]),
        ]
    );
}

#[test]
fn empty_wins_list_sets_none() {
    assert_eq!(
        wins_servers(3, &Vec::new()),
        vec![words(&["interface", "ipv4", "set", "winsservers", "name=3", "source=static", "address=none"])]
    );
}

#[test]
fn primary_address_step_uses_the_first_address_and_gateway() {
    let config = Ipv4Config::Static {
        addresses: vec![network(0xC000_020B, 24)],
        gateways: Vec::new(),
        dns: Vec::new(),
        wins: Vec::new(),
    };
    let commands = step_commands(12, Ipv4Step::SetPrimary, &snapshot(), &config, &None).ok();
    assert_eq!(
        commands,
        Some(vec![words(&[
            "interface", "ipv4", "set", "address", "name=12", "source=static", "address=192.0.2.11/24",
            "gateway=none", "store=active",
        ])])
    );
}

#[test]
fn cleanup_deletes_only_what_the_adapter_still_has() {
    let current = LiveAdapter {
        addresses: vec![IpAddressInfo { address: "192.0.2.11".into(), prefix_length: 24 }],
        state: Ipv4Snapshot { gateways: vec![0xC000_0201], ..snapshot() },
    };
    let config = Ipv4Config::Dhcp { dns_from_dhcp: false };
    let commands = step_commands(5, Ipv4Step::RemoveCaptured, &snapshot(), &config, &Some(current)).ok();
    assert_eq!(
        commands,
        Some(vec![
            words(&["interface", "ipv4", "delete", "address", "name=5", "address=192.0.2.11", "store=active"]),
            words(&[
                "interface", "ipv4", "delete", "route", "prefix=0.0.0.0/0", "interface=5", "nexthop=192.0.2.1",
                "store=active",
            ]),
        ])
    );
}

#[test]
fn cleanup_of_a_vanished_adapter_is_not_found() {
    let config = Ipv4Config::Dhcp { dns_from_dhcp: false };
    let error = step_commands(5, Ipv4Step::RemoveCaptured, &snapshot(), &config, &None).err().unwrap();
    assert_eq!(error.kind, PlatformErrorKind::NotFound);
    assert_eq!(error.message, "adapter if_index=5 disappeared during network cleanup");
}

#[test]
fn restore_records_only_new_targets() {
    let mut restore = NetworkRestore::capture(9, snapshot());
    restore.record_targets(&Ipv4Config::Static {
        addresses: vec![network(0xC000_020A, 24), network(0xC000_0214, 24)],
        gateways: vec![0xC000_0201, 0xC000_02FE],
        dns: Vec::new(),
        wins: Vec::new(),
    });
    assert_eq!(restore.applied_addresses, vec![0xC000_0214]);
    assert_eq!(restore.applied_gateways, vec![0xC000_02FE]);
}

#[test]
fn rollback_puts_back_a_changed_static_configuration() {
    let restore = NetworkRestore::capture(9, snapshot());
    let current = LiveAdapter {
        addresses: Vec::new(),
        state: Ipv4Snapshot { dhcp_enabled: true, manual_ipv4: Vec::new(), gateways: Vec::new(), ..snapshot() },
    };
    let commands = restore.restore_commands(&Some(current)).ok();
    assert_eq!(
        commands,
        Some(vec![
            words(&[
                "interface", "ipv4", "set", "address", "name=9", "source=static", "address=192.0.2.10/24",
                "gateway=192.0.2.1", "store=active",
            ]),
            words(&["interface", "ipv4", "add", "address", "name=9", "address=192.0.2.11/24", "gateway=none", "store=active"]),
        ])
    );
}

#[test]
fn rollback_verification_reports_a_mismatch() {
    let restore = NetworkRestore::capture(9, snapshot());
    let same = LiveAdapter { addresses: Vec::new(), state: snapshot() };
    assert!(restore.verify_restored(&Some(same)).is_ok());
    let changed = LiveAdapter { addresses: Vec::new(), state: Ipv4Snapshot { dns_from_dhcp: true, ..snapshot() } };
    let error = restore.verify_restored(&Some(changed)).err().unwrap();
    assert_eq!(error.kind, PlatformErrorKind::Internal);
    assert_eq!(error.message, "adapter if_index=9 did not match its captured logical network state after rollback");
}

#[test]
fn restore_keys_need_a_guid() {
    let (tcpip, netbt) = restore_keys(&Some("{ABC}".into())).ok().unwrap();
    assert_eq!(tcpip, "SYSTEM\\CurrentControlSet\\Services\\Tcpip\\Parameters\\Interfaces\\{ABC}");
    assert_eq!(netbt, "SYSTEM\\CurrentControlSet\\Services\\NetBT\\Parameters\\Interfaces\\Tcpip_{ABC}");
    assert_eq!(restore_keys(&None).err().unwrap().kind, PlatformErrorKind::InvalidConfig);
}

#[test]
fn an_unchanged_adapter_needs_no_rollback_commands() {
    let restore = NetworkRestore::capture(4, snapshot());
    let same = LiveAdapter { addresses: Vec::new(), state: snapshot() };
    assert_eq!(restore.restore_commands(&Some(same)).ok(), Some(Vec::new()));
    let gone = restore.restore_commands(&None).err().unwrap();
    assert_eq!(gone.message, "adapter if_index=4 disappeared before rollback");
}

#[test]
fn rollback_cleanup_removes_added_targets_still_present() {
    let mut restore = NetworkRestore::capture(9, snapshot());
    restore.record_targets(&Ipv4Config::Static {
        addresses: vec![network(0xC000_0214, 24)],
        gateways: vec![0xC000_02FE],
        dns: Vec::new(),
        wins: Vec::new(),
    });
    let current = LiveAdapter {
        addresses: vec![IpAddressInfo { address: "192.0.2.20".into(), prefix_length: 24 }],
        state: Ipv4Snapshot { gateways: Vec::new(), ..snapshot() },
    };
    assert_eq!(
        restore.cleanup_commands(&Some(current)).ok(),
        Some(vec![words(&["interface", "ipv4", "delete", "address", "name=9", "address=192.0.2.20", "store=active"])])
    );
    assert_eq!(
        restore.cleanup_commands(&None).err().unwrap().message,
        "adapter if_index=9 disappeared during rollback"
    );
}
