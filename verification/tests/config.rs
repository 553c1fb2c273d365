use netplan::config::SecretRef;

#[test]
fn literal_secrets_are_redacted_from_debug_output() {
    let secret = SecretRef::Literal("do-not-print-this".into());
    let debug = secret.redacted_debug();
    assert!(!debug.contains("do-not-print-this"));
    assert!(debug.contains("REDACTED"));
}

use netplan::config::{
    AdapterConfig, DriverOperation, InterfaceSelector, Ipv4Config, NetplanConfig, ProtectionConfig,
    RestartPolicy, SmbAccount, SmbAccountKind, SmbConfig, SmbShare, WifiAction, WifiAuthentication,
    WifiProfile,
};
use netplan::config_rules::validate;
use netplan::Error;

fn empty() -> NetplanConfig {
    NetplanConfig {
        version: 1,
        protect: ProtectionConfig { management_interfaces: Vec::new() },
        identity: None,
        adapters: Vec::new(),
        wifi: Vec::new(),
        wifi_actions: Vec::new(),
        smb: SmbConfig { accounts: Vec::new(), shares: Vec::new(), mappings: Vec::new() },
        firewall: None,
        services: Vec::new(),
        drivers: Vec::new(),
        hooks: Vec::new(),
    }
}

fn blank_selector() -> InterfaceSelector {
    InterfaceSelector { if_index: None, name: None, guid: None, mac_address: None, description_contains: None }
}

fn index(i: u32) -> InterfaceSelector {
    InterfaceSelector { if_index: Some(i), ..blank_selector() }
}

fn adapter(selector: InterfaceSelector) -> AdapterConfig {
    AdapterConfig { selector, enabled: None, mac_address: None, ipv4: None }
}

fn validation_message(config: &NetplanConfig) -> Option<String> {
    match validate(config) {
        Err(Error::Validation(message)) => Some(message),
        _ => None,
    }
}

#[test]
fn empty_adapter_selector_is_rejected() {
    let mut config = empty();
    config.adapters = vec![adapter(blank_selector())];
    assert!(matches!(validate(&config), Err(Error::Validation(_))));
}

#[test]
fn protected_management_interface_cannot_be_targeted() {
    let mut config = empty();
    config.protect.management_interfaces = vec![index(6)];
    config.adapters = vec![AdapterConfig { ipv4: Some(Ipv4Config::Dhcp { dns_from_dhcp: true }), ..adapter(index(6)) }];
    assert!(matches!(validation_message(&config), Some(message) if message.contains("protected")));
}

#[test]
fn adapter_override_requires_a_locally_administered_unicast_mac() {
    for mac in ["00-11-22-33-44-55", "03-11-22-33-44-55"] {
        let mut config = empty();
        config.adapters = vec![AdapterConfig { mac_address: Some(mac.into()), ..adapter(index(7)) }];
        assert!(
            matches!(validation_message(&config), Some(ref message) if message.contains("locally administered unicast")),
            "{mac}"
        );
    }
}

#[test]
fn smb_references_must_resolve_to_declared_accounts() {
    let mut config = empty();
    config.smb.shares = vec![SmbShare {
        name: "diagnostics".into(),
        path: r"X:\diagnostics".into(),
        description: None,
        read_only: false,
        accounts: vec!["missing".into()],
    }];
    assert!(matches!(validation_message(&config), Some(message) if message.contains("unknown SMB account")));
}

#[test]
fn wifi_connect_requires_a_declared_profile() {
    let mut config = empty();
    config.wifi_actions = vec![WifiAction::Connect { selector: None, profile: "missing".into() }];
    assert!(matches!(validation_message(&config), Some(message) if message.contains("unknown Wi-Fi profile")));
}

#[test]
fn smb_share_requires_explicit_local_account_kind() {
    let mut config = empty();
    config.smb.accounts = vec![SmbAccount {
        id: "remote".into(),
        kind: SmbAccountKind::Credential,
        username: r"server\user".into(),
        password: None,
    }];
    config.smb.shares = vec![SmbShare {
        name: "data".into(),
        path: r"X:\data".into(),
        description: None,
        read_only: false,
        accounts: vec!["remote".into()],
    }];
    assert!(matches!(validate(&config), Err(Error::Validation(_))));
}

#[test]
fn wpa3_rejects_a_raw_64_digit_psk() {
    let mut config = empty();
    config.wifi = vec![WifiProfile {
        selector: None,
        name: None,
        ssid: "lab".into(),
        authentication: WifiAuthentication::Wpa3Personal,
        psk: Some(SecretRef::Literal("a".repeat(64))),
        auto_connect: false,
        hidden: false,
    }];
    assert!(matches!(validate(&config), Err(Error::Validation(_))));
}

#[test]
fn driver_install_requires_an_inf_path() {
    let mut config = empty();
    config.drivers = vec![DriverOperation::Install {
        inf_path: r"X:\driver.exe".into(),
        hardware_id: None,
        force: false,
        restart: RestartPolicy::Never,
    }];
    assert!(matches!(validation_message(&config), Some(message) if message.contains(".inf")));
}

#[test]
fn an_empty_configuration_is_valid() {
    assert!(validate(&empty()).is_ok());
}

#[test]
fn automatic_detection_picks_the_format_it_would_keep() {
    use_detection("  {\"version\": 1}", netplan::ConfigFormat::Json);
    use_detection("version: 1\n", netplan::ConfigFormat::Yaml);
}

fn use_detection(text: &str, expected: netplan::ConfigFormat) {
    let detected = netplan::config_rules::resolve_format(text, netplan::ConfigFormat::Auto);
    assert_eq!(detected, expected);
    assert_eq!(netplan::config_rules::resolve_format(text, detected), detected);
}
