use netplan::config::{
    AdapterConfig, DriverOperation, FirewallConfig, HookConfig, HookStage, IdentityConfig, InterfaceSelector, Ipv4Config,
    NetplanConfig, ProtectionConfig, RestartPolicy, ServiceConfig, ServiceState, SmbConfig,
};
use netplan::rollback::{registered_rollback, Observed, Undo};
use netplan::platform::{PlatformError, PlatformErrorKind};
use netplan::transaction::{apply_outcome, has_driver_install, hooks_for_stage, rollback_failure};

fn hook(stage: HookStage) -> HookConfig {
    HookConfig { stage, program: "hook.exe".into(), args: Vec::new(), wait: true }
}

#[test]
fn hooks_of_a_stage_keep_their_order() {
    let hooks = vec![hook(HookStage::AfterApply), hook(HookStage::BeforeApply), hook(HookStage::AfterApply)];
    assert_eq!(hooks_for_stage(&hooks, HookStage::AfterApply), vec![0, 2]);
    assert_eq!(hooks_for_stage(&hooks, HookStage::AfterRollback), Vec::<usize>::new());
}

#[test]
fn a_completed_apply_reports_its_reversible_changes() {
    let report = apply_outcome(Ok(()), 3, false, &Vec::new(), None);
    assert_eq!(
        report.map(|r| r.message),
        Ok("live apply completed successfully; 3 reversible mutation(s) recorded".to_string())
    );
}

#[test]
fn a_clean_rollback_is_reported_as_rolled_back() {
    let failure = PlatformError::internal("netsh failed".into());
    let Err(error) = apply_outcome(Err(failure), 2, false, &Vec::new(), None) else {
        panic!("a failure stays a failure");
    };
    assert_eq!(error.kind, PlatformErrorKind::Internal);
    assert_eq!(error.message, "netsh failed");
    assert!(error.rolled_back);
}

#[test]
fn rollback_and_hook_failures_are_listed_and_prevent_rolled_back() {
    let failure = PlatformError::unsupported("step failed".into());
    let rollback_errors = vec![rollback_failure(&PlatformError::internal("restore failed".into()))];
    let hook_error = Some(PlatformError::internal("hook exited".into()));
    let Err(error) = apply_outcome(Err(failure), 2, false, &rollback_errors, hook_error) else {
        panic!("a failure stays a failure");
    };
    assert_eq!(error.kind, PlatformErrorKind::Unsupported);
    assert_eq!(
        error.message,
        "step failed; rollback failed: restore failed; after-rollback hook failed: hook exited"
    );
    assert!(!error.rolled_back);
}

#[test]
fn nothing_changed_or_an_irreversible_change_is_not_rolled_back() {
    let Err(untouched) = apply_outcome(Err(PlatformError::internal("early".into())), 0, false, &Vec::new(), None) else {
        panic!("a failure stays a failure");
    };
    assert!(!untouched.rolled_back);
    let Err(driver) = apply_outcome(Err(PlatformError::internal("late".into())), 1, true, &Vec::new(), None) else {
        panic!("a failure stays a failure");
    };
    assert!(!driver.rolled_back);
}

#[test]
fn only_driver_installs_are_irreversible() {
    let mut config = NetplanConfig {
        version: 1,
        protect: ProtectionConfig { management_interfaces: Vec::new() },
        identity: None,
        adapters: Vec::new(),
        wifi: Vec::new(),
        wifi_actions: Vec::new(),
        smb: SmbConfig { accounts: Vec::new(), shares: Vec::new(), mappings: Vec::new() },
        firewall: None,
        services: Vec::new(),
        drivers: vec![DriverOperation::RestartAdapter {
            selector: InterfaceSelector {
                if_index: Some(3),
                name: None,
                guid: None,
                mac_address: None,
                description_contains: None,
            },
        }],
        hooks: Vec::new(),
    };
    assert!(!has_driver_install(&config));
    config.drivers.push(DriverOperation::Install {
        inf_path: "C:\\drivers\\nic.inf".into(),
        hardware_id: None,
        force: false,
        restart: RestartPolicy::Never,
    });
    assert!(has_driver_install(&config));
}

#[test]
fn rollback_runs_the_last_recorded_action_first() {
    assert_eq!(netplan::transaction::rollback_order(3), vec![2, 1, 0]);
    assert_eq!(netplan::transaction::rollback_order(0), Vec::<usize>::new());
    let failed = PlatformError { kind: PlatformErrorKind::Internal, message: "service stuck".into(), rolled_back: false };
    let errors = netplan::transaction::rollback_errors(&vec![Ok(()), Err(failed), Ok(())]);
    assert_eq!(errors, vec!["rollback failed: service stuck".to_string()]);
}

#[test]
fn a_live_apply_registers_rollback_actions_in_the_order_of_its_changes() {
    let selector = InterfaceSelector { if_index: Some(3), name: None, guid: None, mac_address: None, description_contains: None };
    let config = NetplanConfig {
        version: 1,
        protect: ProtectionConfig { management_interfaces: Vec::new() },
        identity: Some(IdentityConfig { computer_name: Some("lab-01".into()), workgroup: Some("WORKGROUP".into()), dns_suffix: None }),
        adapters: vec![AdapterConfig {
            selector,
            enabled: Some(true),
            mac_address: Some("02:00:00:00:00:01".into()),
            ipv4: Some(Ipv4Config::Dhcp { dns_from_dhcp: true }),
        }],
        wifi: Vec::new(),
        wifi_actions: Vec::new(),
        smb: SmbConfig { accounts: Vec::new(), shares: Vec::new(), mappings: Vec::new() },
        firewall: Some(FirewallConfig { enabled: true }),
        services: vec![ServiceConfig { name: "Spooler".into(), state: ServiceState::Stopped }],
        drivers: Vec::new(),
        hooks: Vec::new(),
    };
    let observed = Observed {
        computer_name: "MINWINPC".into(),
        workgroup: "workgroup".into(),
        dns_suffix: String::new(),
        admin_enabled: vec![false],
        ipv4_changes: vec![false],
        services_running: vec![true],
        accounts_exist: Vec::new(),
        mappings_in_place: Vec::new(),
        firewall: (true, false, true),
    };
    assert_eq!(
        registered_rollback(&config, &observed),
        vec![
            Undo::ComputerName,
            Undo::AdapterState { adapter: 0, enabled: false },
            Undo::AdapterMac { adapter: 0, restart: true },
            Undo::Service { service: 0, running: true },
            Undo::Firewall,
        ]
    );
}
