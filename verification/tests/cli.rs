use netplan::cli::{
    require_default_service_endpoint, required_capabilities, service_command, split_command_line,
    LifecycleAction,
};
use netplan::{Operation, OperationRisk};

#[test]
fn tokenizer_preserves_windows_paths_and_quoted_spaces() {
    assert_eq!(
        split_command_line(r#"validate "C:\Program Files\netplan\lab.yaml" --format yaml"#),
        Ok(vec![
            "validate".to_string(),
            r"C:\Program Files\netplan\lab.yaml".to_string(),
            "--format".to_string(),
            "yaml".to_string()
        ])
    );
    assert_eq!(
        split_command_line(r"validate C:\netplan\lab.yaml"),
        Ok(vec!["validate".to_string(), r"C:\netplan\lab.yaml".to_string()])
    );
}

#[test]
fn tokenizer_rejects_unterminated_quotes() {
    assert_eq!(
        split_command_line("validate \"missing.yaml"),
        Err("unterminated quoted argument".to_string())
    );
}

#[test]
fn tokenizer_accepts_a_powershell_utf8_bom_on_the_first_command() {
    assert_eq!(split_command_line("\u{feff}status"), Ok(vec!["status".to_string()]));
}

fn operation(id: &str, capability: &str, summary: &str) -> Operation {
    Operation {
        id: id.into(),
        capability: capability.into(),
        summary: summary.into(),
        risk: OperationRisk::Connectivity,
        target: None,
    }
}

#[test]
fn required_capabilities_are_unique_and_stable() {
    let operations = vec![
        operation("one", "network.ipv4", "first"),
        operation("two", "network.ipv4", "second"),
        operation("three", "wifi.profile", "third"),
    ];
    assert_eq!(
        required_capabilities(&operations),
        vec!["network.ipv4".to_string(), "wifi.profile".to_string()]
    );
}

#[test]
fn service_command_quotes_the_daemon_path_and_selects_service_mode() {
    let command = service_command(r"C:\Program Files\PE Netplan\netpland.exe");
    assert_eq!(command, r#""C:\Program Files\PE Netplan\netpland.exe" --service"#);
}

#[test]
fn lifecycle_actions_have_stable_names() {
    assert_eq!(LifecycleAction::Enable, LifecycleAction::Enable);
    assert_eq!(LifecycleAction::Disable, LifecycleAction::Disable);
    assert_eq!(LifecycleAction::Start, LifecycleAction::Start);
    assert_eq!(LifecycleAction::Stop, LifecycleAction::Stop);
}

#[test]
fn service_installation_rejects_custom_endpoints() {
    let result = require_default_service_endpoint("custom-endpoint", netplan::DEFAULT_WINDOWS_ENDPOINT);
    assert!(matches!(result, Err(message) if message.contains("default endpoint")));
}

#[test]
fn service_lifecycle_results_describe_the_service() {
    let enabled = netplan::cli::enabled_result();
    assert_eq!((enabled.action, enabled.mode, enabled.installed, enabled.state), ("enable", "windows-service", true, "running"));
    assert_eq!(enabled.message, "installed for automatic startup and started");
    let disabled = netplan::cli::disabled_result();
    assert_eq!((disabled.action, disabled.installed, disabled.state), ("disable", false, "stopped"));
    assert_eq!(disabled.message, "stopped and removed from automatic startup");
}
