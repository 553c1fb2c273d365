use netplan::scm::{start_steps, stop_steps, ServiceStep};
use netplan::error::{status_for_error, NETPLAN_DAEMON_ERROR, NETPLAN_INVALID_ARGUMENT, NETPLAN_IO_ERROR};
use netplan::config::{AdapterConfig, InterfaceSelector, RestartPolicy, ServiceState};
use netplan::error::{is_endpoint_absent, Error, IoErrorKind};
use netplan::live::{
    adapter_steps, class_key, class_key_matches, driver_install, driver_restart, firewall_changes,
    firewall_restore, name_differs, service_change, service_control, AdapterStep, ServiceControl,
};
use netplan::oserror::{
    net_api_error, netsh_outcome, pnputil_outcome, process_error, restart_failure, tool_diagnostic, trim,
    windows_error,
};
use netplan::platform::{PlatformError, PlatformErrorKind};

fn adapter(enabled: Option<bool>, mac: bool) -> AdapterConfig {
    AdapterConfig {
        selector: InterfaceSelector {
            if_index: Some(1),
            name: None,
            guid: None,
            mac_address: None,
            description_contains: None,
        },
        enabled,
        mac_address: if mac { Some("02:00:00:00:00:01".into()) } else { None },
        ipv4: None,
    }
}

#[test]
fn enabling_a_disabled_adapter_restarts_it_for_a_new_mac() {
    assert_eq!(
        adapter_steps(&adapter(Some(true), true), false),
        vec![AdapterStep::Enable, AdapterStep::SetMac { restart: true }]
    );
    assert_eq!(adapter_steps(&adapter(None, true), false), vec![AdapterStep::SetMac { restart: false }]);
    assert_eq!(adapter_steps(&adapter(Some(false), false), true), vec![AdapterStep::Disable]);
}

#[test]
fn names_compare_without_case() {
    assert!(!name_differs("WORKGROUP", "workgroup"));
    assert!(name_differs("LAB", "workgroup"));
}

#[test]
fn services_change_only_when_needed() {
    assert_eq!(service_change(true, ServiceState::Running), None);
    assert_eq!(service_change(true, ServiceState::Stopped), Some(false));
    assert_eq!(service_control(true, 1), Some(ServiceControl::Start));
    assert_eq!(service_control(false, 1), None);
}

#[test]
fn firewall_profiles_restore_in_order() {
    assert!(!firewall_changes(true, true, true, true));
    assert!(firewall_changes(true, false, true, true));
    let commands = firewall_restore(true, false, true);
    assert_eq!(commands.len(), 3);
    assert_eq!(commands[1], vec!["advfirewall", "set", "privateprofile", "state", "off"]);
}

#[test]
fn class_keys_are_four_digits() {
    assert_eq!(
        class_key(7),
        "SYSTEM\\CurrentControlSet\\Control\\Class\\{4D36E972-E325-11CE-BFC1-08002BE10318}\\0007"
    );
    assert!(class_key_matches(&Some("{ab-CD}".into()), "AB-cd"));
    assert!(!class_key_matches(&None, "AB-cd"));
}

#[test]
fn drivers_need_hardware_ids_to_force_or_restart() {
    assert_eq!(driver_install("x.inf", &None, true).err().unwrap().message, "forced driver replacement requires a hardware_id");
    assert_eq!(driver_install("x.inf", &Some("PCI\\1".into()), true).ok(), Some(None));
    assert_eq!(
        driver_install("x.inf", &None, false).ok(),
        Some(Some(vec!["/add-driver".to_string(), "x.inf".to_string(), "/install".to_string()]))
    );
    assert_eq!(driver_restart(RestartPolicy::IfRequired, false, &None).ok(), Some(None));
    assert_eq!(driver_restart(RestartPolicy::Always, false, &None).err().unwrap().message, "driver restart requires a hardware_id");
}

#[test]
fn tool_output_becomes_a_diagnostic() {
    assert_eq!(trim("  a b \n"), "a b");
    assert_eq!(tool_diagnostic(b" out \n", b"\terr "), "err; out");
    assert_eq!(tool_diagnostic(b"out", b"  "), "out");
    assert_eq!(tool_diagnostic(b"", b""), "");
    let error = netsh_outcome(false, "exit code: 1", "").err().unwrap();
    assert_eq!(error.message, "netsh exited with status exit code: 1");
    assert_eq!(pnputil_outcome(false, Some(3010), "", "").ok(), Some(true));
    assert_eq!(pnputil_outcome(true, Some(0), "", "").ok(), Some(false));
    let error = pnputil_outcome(false, Some(2), "exit code: 2", "bad").err().unwrap();
    assert_eq!(error.message, "pnputil exited with status exit code: 2: bad");
}

#[test]
fn operating_system_errors_keep_their_category() {
    let e = process_error("netsh", IoErrorKind::PermissionDenied, "denied");
    assert_eq!(e.kind, PlatformErrorKind::PermissionDenied);
    assert_eq!(e.message, "netsh execution was denied: denied");
    assert_eq!(process_error("hook", IoErrorKind::NotFound, "x").message, "hook executable was not found: x");
    assert_eq!(windows_error("OpenServiceW", 0x8007_0424, "gone").kind, PlatformErrorKind::NotFound);
    let e = net_api_error("NetUserAdd", 2221);
    assert_eq!(e.kind, PlatformErrorKind::NotFound);
    assert_eq!(e.message, "NetUserAdd failed with status 2221");
}

#[test]
fn adapter_restart_failures_report_the_recovery() {
    let first = PlatformError { kind: PlatformErrorKind::Internal, message: "boom".into(), rolled_back: false };
    assert_eq!(
        restart_failure(&first, &Ok(())).message,
        "adapter restart failed but the adapter was re-enabled: boom"
    );
    let second = PlatformError { kind: PlatformErrorKind::Internal, message: "again".into(), rolled_back: false };
    assert_eq!(
        restart_failure(&first, &Err(second)).message,
        "adapter restart failed and re-enable recovery also failed: boom; again"
    );
}

#[test]
fn missing_endpoints_are_recognised() {
    let absent = Error::Io { kind: IoErrorKind::ConnectionRefused, message: "refused".into() };
    assert!(is_endpoint_absent(&absent));
    let other = Error::Io { kind: IoErrorKind::Other, message: "x".into() };
    assert!(!is_endpoint_absent(&other));
    assert!(!is_endpoint_absent(&Error::Daemon("x".into())));
}

#[test]
fn abi_statuses_follow_the_error_category() {
    assert_eq!(status_for_error(&Error::Validation("x".into())), NETPLAN_INVALID_ARGUMENT);
    assert_eq!(status_for_error(&Error::Daemon("x".into())), NETPLAN_DAEMON_ERROR);
    let io = Error::Io { kind: IoErrorKind::Other, message: "x".into() };
    assert_eq!(status_for_error(&io), NETPLAN_IO_ERROR);
}

#[test]
fn service_status_reports_follow_the_lifecycle() {
    let pending = netplan::scm::start_pending();
    assert_eq!(pending.state, 2);
    assert_eq!(pending.wait_hint, 5000);
    assert_eq!(pending.service_type, 16);
    let running = netplan::scm::running();
    assert_eq!((running.state, running.controls_accepted), (4, 1));
    let failed = netplan::scm::stopped(false);
    assert_eq!((failed.state, failed.exit_code, failed.service_specific_exit_code), (1, 1066, 1));
    let clean = netplan::scm::stopped(true);
    assert_eq!((clean.exit_code, clean.service_specific_exit_code), (0, 0));
    assert!(netplan::scm::requests_shutdown(1));
    assert!(!netplan::scm::requests_shutdown(5));
}

#[test]
fn windows_and_registry_errors_are_classified() {
    let e = netplan::oserror::windows_last_error("GetComputerNameExW", Some(5), "Access is denied.");
    assert_eq!(e.kind, PlatformErrorKind::PermissionDenied);
    assert_eq!(e.message, "GetComputerNameExW failed: Access is denied.");
    assert_eq!(netplan::oserror::windows_last_error("x", None, "y").kind, PlatformErrorKind::Internal);
    let e = netplan::oserror::registry_error("RegGetValueW", 2);
    assert_eq!(e.kind, PlatformErrorKind::NotFound);
    assert_eq!(e.message, "RegGetValueW failed with status 2");
    assert_eq!(netplan::oserror::registry_error("RegSetValueExW", 1).kind, PlatformErrorKind::Internal);
}

#[test]
fn domain_joined_machines_keep_their_membership() {
    let e = netplan::live::current_workgroup(false, Ok("CORP".into())).err().unwrap();
    assert_eq!(e.kind, PlatformErrorKind::InvalidConfig);
    assert_eq!(
        e.message,
        "refusing to change a domain-joined machine to a workgroup without rollback credentials"
    );
    assert_eq!(netplan::live::current_workgroup(true, Ok("LAB".into())).ok(), Some("LAB".to_string()));
}

#[test]
fn transaction_diagnostics_name_what_failed() {
    assert_eq!(
        netplan::live::service_wait_failure(4).message,
        "service did not reach state 4 within 30 seconds"
    );
    assert_eq!(
        netplan::live::class_key_missing("{AB}").message,
        "adapter registry class key was not found for GUID \"{AB}\""
    );
    assert_eq!(netplan::live::hook_failure("C:\\x.exe", "exit code: 3").message, "hook \"C:\\\\x.exe\" exited with status exit code: 3");
    assert_eq!(
        netplan::live::firewall_key("PublicProfile"),
        "SYSTEM\\CurrentControlSet\\Services\\SharedAccess\\Parameters\\FirewallPolicy\\PublicProfile"
    );
    assert_eq!(netplan::live::firewall_apply(false), vec!["advfirewall", "set", "allprofiles", "state", "off"]);
}

#[test]
fn stop_requests_report_a_pending_stop() {
    let pending = netplan::scm::stop_pending();
    assert_eq!((pending.state, pending.checkpoint, pending.wait_hint), (3, 1, 5000));
    assert!(netplan::wifi::already_disconnected(5023));
    assert!(!netplan::wifi::already_disconnected(0));
}

#[test]
fn installed_service_lifecycle_steps_follow_its_state() {
    assert_eq!(start_steps(4), Vec::new());
    assert_eq!(start_steps(2), vec![ServiceStep::WaitFor(4)]);
    assert_eq!(
        start_steps(3),
        vec![ServiceStep::WaitFor(1), ServiceStep::Send(ServiceControl::Start), ServiceStep::WaitFor(4)]
    );
    assert_eq!(start_steps(1), vec![ServiceStep::Send(ServiceControl::Start), ServiceStep::WaitFor(4)]);
    assert_eq!(stop_steps(1), Vec::new());
    assert_eq!(stop_steps(3), vec![ServiceStep::WaitFor(1)]);
    assert_eq!(stop_steps(4), vec![ServiceStep::Send(ServiceControl::Stop), ServiceStep::WaitFor(1)]);
    assert!(netplan::scm::control_failure_tolerated(ServiceControl::Start, 1056));
    assert!(!netplan::scm::control_failure_tolerated(ServiceControl::Stop, 1056));
    assert!(netplan::scm::service_absent(1060));
    assert_eq!(
        netplan::scm::lifecycle_wait_failure(4),
        "PE Netplan service did not reach state 4 within 30 seconds"
    );
    assert_eq!(netplan::scm::service_missing(), "PE Netplan service is not installed; run `netplan enable` first");
    assert_eq!(
        netplan::scm::lifecycle_error("start PE Netplan service", Some(5), "x"),
        "start PE Netplan service failed: access denied after UAC elevation; verify the account's Administrator rights and local policy"
    );
    assert_eq!(netplan::scm::lifecycle_error("open", Some(2), "gone"), "open failed: gone");
}
