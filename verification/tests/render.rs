use netplan::cli::LifecycleResult;
use netplan::output::{format_duration, key_values, record_list, wrap_text};
use netplan::protocol::{ErrorCode, JobState, JobSummary, Response, ValidationIssue};
use netplan::render::{
    render_error_human, render_human, render_lifecycle_human, wifi_rates, wifi_security, CliError,
    OutputFormat,
};
use netplan::{Capability, CapabilityState, Operation, OperationRisk};

#[test]
fn daemon_rejections_become_errors_with_their_code() {
    let rendered = render_human(Response::Error { code: ErrorCode::PermissionDenied, message: "access denied".into() });
    let Err(error) = rendered else {
        panic!("a rejection is not rendered as success");
    };
    assert_eq!(error.code, "permission_denied");
    assert_eq!(error.message, "access denied");
    assert_eq!(render_error_human(&error), "netplan: permission_denied: access denied");
}

#[test]
fn command_line_errors_read_as_their_message() {
    let error = CliError::from_message("daemon unavailable".into());
    assert_eq!(error.code, "cli_error");
    assert_eq!(render_error_human(&error), "netplan: daemon unavailable");
    let converted: CliError = String::from("bad flag").into();
    assert_eq!(converted, CliError::from_message("bad flag".into()));
}

#[test]
fn output_format_follows_the_json_flag() {
    assert_eq!(OutputFormat::from_json(true), OutputFormat::Json);
    assert_eq!(OutputFormat::from_json(false), OutputFormat::Human);
}

#[test]
fn key_values_align_keys_and_wrap_values() {
    let rendered = key_values(
        "Title",
        &vec![("A".to_string(), "one".to_string()), ("Longer".to_string(), "two".to_string())],
    );
    assert_eq!(rendered, "Title\n  A       one\n  Longer  two");
}

#[test]
fn wrapping_keeps_words_and_splits_long_ones() {
    assert_eq!(wrap_text("alpha beta gamma", 10), vec!["alpha beta", "gamma"]);
    assert_eq!(wrap_text("abcdefghij", 4), vec!["abcd", "efgh", "ij"]);
    assert_eq!(wrap_text("a\r\n\nb", 10), vec!["a", "", "b"]);
    assert_eq!(wrap_text("   ", 10), vec!["-"]);
    assert_eq!(wrap_text("", 10), vec![""]);
}

#[test]
fn wrapped_lines_never_exceed_the_width() {
    let text = "a fairly long sentence with averyveryverylongwordthatmustbesplit in it";
    for width in 1..20 {
        for line in wrap_text(text, width) {
            assert!(line.chars().count() <= width, "{line:?} is wider than {width}");
        }
    }
}

#[test]
fn record_lists_indent_every_line_of_each_record() {
    assert_eq!(
        record_list("List", &vec!["a\nb".to_string(), "c\r\nd\n".to_string()], "none"),
        "List\n\n  a\n  b\n\n  c\n  d"
    );
    assert_eq!(record_list("List", &Vec::new(), "none"), "List\n  none");
}

#[test]
fn durations_use_the_largest_nonzero_units() {
    assert_eq!(format_duration(999), "999 ms");
    assert_eq!(format_duration(1_000), "1s");
    assert_eq!(format_duration(90_061_000), "1d 1h 1m 1s");
    assert_eq!(format_duration(3_600_000), "1h");
}

#[test]
fn wifi_cells_render_their_parts() {
    assert_eq!(wifi_security(Some(false), &None, &None), "open");
    assert_eq!(wifi_security(Some(true), &None, &Some("ccmp".into())), "secured/ccmp");
    assert_eq!(wifi_security(None, &Some("wpa2".into()), &None), "-");
    assert_eq!(wifi_rates(None, None), "-");
    assert_eq!(wifi_rates(Some(10), None), "10/- kbps");
}

#[test]
fn capabilities_align_names_and_wrap_reasons() {
    let rendered = render_human(Response::Capabilities(vec![
        Capability { name: "config.plan".into(), state: CapabilityState::Available, reason: None },
        Capability {
            name: "wifi.scan".into(),
            state: CapabilityState::Unavailable,
            reason: Some("Windows WLAN API is unavailable".into()),
        },
    ]));
    assert_eq!(
        rendered,
        Ok("Capabilities (2)\n  config.plan  available\n  wifi.scan    unavailable\n    Windows WLAN API is unavailable"
            .to_string())
    );
}

#[test]
fn plans_number_their_operations() {
    let rendered = render_human(Response::Plan(vec![Operation {
        id: "hook.before".into(),
        capability: "hook.execute".into(),
        summary: "run hook".into(),
        risk: OperationRisk::Destructive,
        target: None,
    }]))
    .unwrap_or_default();
    assert_eq!(
        rendered,
        "Plan (1)\n\n  1. run hook\n    Risk        destructive\n    Capability  hook.execute\n    Target      -"
    );
    assert_eq!(render_human(Response::Plan(Vec::new())), Ok("Plan (0)\n  No operations required.".into()));
}

#[test]
fn validation_reports_list_their_diagnostics() {
    assert_eq!(
        render_human(Response::Validation { valid: true, issues: Vec::new() }),
        Ok("Configuration validation\n  Status  valid\n  Issues  0".into())
    );
    let rendered = render_human(Response::Validation {
        valid: false,
        issues: vec![ValidationIssue { path: None, message: "bad".into() }],
    })
    .unwrap_or_default();
    assert_eq!(
        rendered,
        "Configuration validation\n  Status  invalid\n  Issues  1\n\nDiagnostics\n\n  <document>\n    Message  bad"
    );
}

#[test]
fn job_listings_show_matching_and_displayed_counts() {
    let rendered = render_human(Response::Jobs {
        jobs: vec![JobSummary {
            job_id: "job-1".into(),
            state: JobState::RolledBack,
            message: None,
            created_at_unix_ms: 1,
            updated_at_unix_ms: 2,
        }],
        total: 3,
    })
    .unwrap_or_default();
    assert!(rendered.starts_with("Jobs\n  Matching   3\n  Displayed  1\n\nJob details\n\n  job-1\n"));
    assert!(rendered.contains("State         rolled-back"));
}

#[test]
fn lifecycle_output_is_readable() {
    let result = LifecycleResult {
        action: "enable",
        mode: "windows-service",
        installed: true,
        state: "running",
        message: "installed for automatic startup and started".into(),
    };
    let human = render_lifecycle_human(&result);
    assert!(human.contains("Windows service") && human.contains("running"));
    assert!(human.starts_with("PE Netplan daemon\n  Action     enable\n  Mode       Windows service\n  Installed  yes"));
}

#[test]
fn json_errors_are_machine_readable_and_keep_a_nonempty_message() {
    let error = CliError::from("daemon unavailable".to_owned());
    assert_eq!(error.code, "cli_error");
    assert_eq!(error.message, "daemon unavailable");
}

#[test]
fn daemon_errors_keep_their_stable_code_in_json_mode() {
    let rendered = render_human(Response::Error { code: ErrorCode::PermissionDenied, message: "access denied".into() });
    let Err(error) = rendered else {
        panic!("daemon rejection was rendered as success");
    };
    assert_eq!(error.code, "permission_denied");
    assert_eq!(error.message, "access denied");
}
