use netplan::build_plan;
use netplan::config::{
    AdapterConfig, DriverOperation, FirewallConfig, HookConfig, HookStage, IdentityConfig,
    InterfaceSelector, Ipv4Config, NetplanConfig, ProtectionConfig, RestartPolicy, ServiceConfig,
    ServiceState, SmbAccount, SmbAccountKind, SmbConfig, SmbMapping, SmbShare, WifiAction,
    WifiAuthentication, WifiProfile,
};
use netplan::config_rules::validate;

fn empty() -> NetplanConfig {
    NetplanConfig {
        version: 1,
        protect: ProtectionConfig { management_interfaces: Vec::new() },
        identity: None,
        adapters: Vec::new(),
        wifi: Vec::new(),
        wifi_actions: Vec::new(),
        smb: SmbConfig { accounts: Vec::new(), shares: Vec::new(), mappings: Vec::new() },
        firewall: None,
        services: Vec::new(),
        drivers: Vec::new(),
        hooks: Vec::new(),
    }
}

fn index(i: u32) -> InterfaceSelector {
    InterfaceSelector { if_index: Some(i), name: None, guid: None, mac_address: None, description_contains: None }
}

fn ids(config: &NetplanConfig) -> Vec<String> {
    build_plan(config).into_iter().map(|op| op.id).collect()
}

fn hook(stage: HookStage, program: &str) -> HookConfig {
    HookConfig { stage, program: program.into(), args: Vec::new(), wait: true }
}

#[test]
fn planner_preserves_safe_dependency_order() {
    let mut config = empty();
    config.identity = Some(IdentityConfig { computer_name: Some("PE-LAB".into()), workgroup: None, dns_suffix: None });
    config.adapters = vec![AdapterConfig {
        selector: index(7),
        enabled: Some(true),
        mac_address: None,
        ipv4: Some(Ipv4Config::Dhcp { dns_from_dhcp: true }),
    }];
    assert!(validate(&config).is_ok());
    assert_eq!(ids(&config), ["identity.computer_name", "adapter.0.enabled", "adapter.0.ipv4"]);
}

#[test]
fn planner_configures_ipv4_before_disabling_an_adapter() {
    let mut config = empty();
    config.adapters = vec![AdapterConfig {
        selector: index(7),
        enabled: Some(false),
        mac_address: None,
        ipv4: Some(Ipv4Config::Dhcp { dns_from_dhcp: true }),
    }];
    assert!(validate(&config).is_ok());
    assert_eq!(ids(&config), ["adapter.0.ipv4", "adapter.0.enabled"]);
}

#[test]
fn planner_covers_every_porting_capability_in_execution_order() {
    let mut config = empty();
    config.identity = Some(IdentityConfig { computer_name: Some("PE-LAB".into()), workgroup: None, dns_suffix: None });
    config.adapters = vec![AdapterConfig {
        selector: index(7),
        enabled: Some(true),
        mac_address: Some("02-11-22-33-44-55".into()),
        ipv4: Some(Ipv4Config::Dhcp { dns_from_dhcp: true }),
    }];
    config.wifi = vec![WifiProfile {
        selector: None,
        name: Some("lab".into()),
        ssid: "Lab".into(),
        authentication: WifiAuthentication::Open,
        psk: None,
        auto_connect: false,
        hidden: false,
    }];
    config.wifi_actions = vec![
        WifiAction::Scan { selector: None },
        WifiAction::Connect { selector: None, profile: "lab".into() },
        WifiAction::Disconnect { selector: None },
    ];
    config.smb = SmbConfig {
        accounts: vec![SmbAccount {
            id: "lab".into(),
            kind: SmbAccountKind::Local,
            username: "lab-user".into(),
            password: None,
        }],
        shares: vec![SmbShare {
            name: "lab".into(),
            path: r"X:\lab".into(),
            description: None,
            read_only: false,
            accounts: vec!["lab".into()],
        }],
        mappings: vec![SmbMapping {
            remote: r"\\server\share".into(),
            local: None,
            account: Some("lab".into()),
            username: None,
            password: None,
        }],
    };
    config.firewall = Some(FirewallConfig { enabled: true });
    config.services = vec![ServiceConfig { name: "LanmanServer".into(), state: ServiceState::Running }];
    config.drivers = vec![
        DriverOperation::Install {
            inf_path: r"X:\drivers\net.inf".into(),
            hardware_id: None,
            force: false,
            restart: RestartPolicy::Never,
        },
        DriverOperation::RestartAdapter { selector: index(7) },
    ];
    config.hooks = vec![
        hook(HookStage::BeforeApply, r"X:\before.exe"),
        hook(HookStage::AfterApply, r"X:\after.exe"),
        hook(HookStage::AfterRollback, r"X:\rollback.exe"),
    ];
    assert!(validate(&config).is_ok());
    assert_eq!(
        ids(&config),
        [
            "hook.0.before_apply",
            "identity.computer_name",
            "adapter.0.enabled",
            "adapter.0.mac",
            "adapter.0.ipv4",
            "wifi.profile.0",
            "wifi.action.0.scan",
            "wifi.action.1.connect",
            "wifi.action.2.disconnect",
            "service.0.state",
            "smb.account.0",
            "smb.share.0",
            "smb.mapping.0",
            "firewall.enabled",
            "driver.0.install",
            "driver.1.restart_adapter",
            "hook.1.after_apply",
            "hook.2.after_rollback",
        ]
    );
}
