use netplan::config::IpAddress;
use netplan::inventory::{in_buffer, split_unicast, UnicastAddress};
use netplan::inventory::{adapter_listed, adapter_name, assumed_hardware, format_mac, oper_status};

#[test]
fn mac_addresses_read_as_uppercase_pairs() {
    let bytes = vec![0x02, 0x00, 0x5e, 0x10, 0xab, 0x07, 0, 0];
    assert_eq!(format_mac(&bytes, 6), Some("02-00-5E-10-AB-07".to_string()));
    assert_eq!(format_mac(&bytes, 0), None);
    assert_eq!(format_mac(&bytes, 12), Some("02-00-5E-10-AB-07-00-00".to_string()));
}

#[test]
fn adapter_records_are_named_and_filtered() {
    assert_eq!(oper_status(1), "up");
    assert_eq!(oper_status(7), "lower_layer_down");
    assert_eq!(oper_status(4), "unknown");
    assert!(adapter_listed(6, 1, false));
    assert!(!adapter_listed(24, 1, false));
    assert!(!adapter_listed(6, 6, false));
    assert!(!adapter_listed(6, 1, true));
    assert!(assumed_hardware(71));
    assert!(!assumed_hardware(131));
    assert_eq!(adapter_name(None, 12), "ifIndex 12");
    assert_eq!(adapter_name(Some("Ethernet".into()), 12), "Ethernet");
}

#[test]
fn records_must_lie_inside_the_buffer() {
    assert!(in_buffer(100, 16, 100, 116).is_ok());
    assert!(in_buffer(99, 16, 100, 200).is_err());
    assert!(in_buffer(190, 16, 100, 200).is_err());
    assert!(in_buffer(usize::MAX - 1, 16, 0, usize::MAX).is_err());
}

#[test]
fn unicast_addresses_split_by_family_and_origin() {
    let records = vec![
        UnicastAddress { address: IpAddress::V4(0xC0A8_0001), prefix_length: 24, manual: true },
        UnicastAddress { address: IpAddress::V6(1), prefix_length: 128, manual: true },
        UnicastAddress { address: IpAddress::V4(0x0A00_0001), prefix_length: 8, manual: false },
    ];
    let (ipv4, ipv6, manual) = split_unicast(&records);
    let texts = |v: &Vec<netplan::IpAddressInfo>| v.iter().map(|a| (a.address.clone(), a.prefix_length)).collect::<Vec<_>>();
    assert_eq!(texts(&ipv4), vec![("192.168.0.1".to_string(), 24), ("10.0.0.1".to_string(), 8)]);
    assert_eq!(texts(&ipv6), vec![("::1".to_string(), 128)]);
    assert_eq!(texts(&manual), vec![("192.168.0.1".to_string(), 24)]);
}
