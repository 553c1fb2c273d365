use netplan::config::{
    NetplanConfig, ProtectionConfig, SecretRef, SmbAccount, SmbAccountKind, SmbConfig, SmbMapping, SmbShare,
};
use netplan::platform::{PlatformError, PlatformErrorKind};
use netplan::smb::{
    existing_mapping, mapping_credentials, mapping_rollback_target, net_api_result, resolve_secret,
    share_update_failure, win32_error, wnet_result, MappingCredentials,
};
use netplan::smb::{creates_account, share_grants, ShareGrant, Trustee};

fn config(accounts: Vec<SmbAccount>) -> NetplanConfig {
    NetplanConfig {
        version: 1,
        protect: ProtectionConfig { management_interfaces: Vec::new() },
        identity: None,
        adapters: Vec::new(),
        wifi: Vec::new(),
        wifi_actions: Vec::new(),
        smb: SmbConfig { accounts, shares: Vec::new(), mappings: Vec::new() },
        firewall: None,
        services: Vec::new(),
        drivers: Vec::new(),
        hooks: Vec::new(),
    }
}

fn mapping(account: Option<&str>, local: Option<&str>) -> SmbMapping {
    SmbMapping {
        remote: r"\\server\share".into(),
        local: local.map(Into::into),
        account: account.map(Into::into),
        username: None,
        password: None,
    }
}

#[test]
fn net_api_codes_are_classified_and_name_the_parameter() {
    assert!(net_api_result("NetUserAdd", 0, Some(3)).is_ok());
    let Err(error) = net_api_result("NetUserAdd", 2221, Some(3)) else {
        panic!("nonzero status is a failure");
    };
    assert_eq!(error.kind, PlatformErrorKind::NotFound);
    assert_eq!(error.message, "NetUserAdd failed with Windows error 2221 at parameter 3");
    let Err(error) = net_api_result("NetShareAdd", 2118, Some(0)) else {
        panic!("nonzero status is a failure");
    };
    assert_eq!(error.kind, PlatformErrorKind::InvalidConfig);
    assert_eq!(error.message, "NetShareAdd failed with Windows error 2118");
}

#[test]
fn wnet_codes_are_classified() {
    assert!(wnet_result("WNetAddConnection2W", 0).is_ok());
    assert!(matches!(wnet_result("WNetAddConnection2W", 1326), Err(e) if e.kind == PlatformErrorKind::PermissionDenied));
    assert!(matches!(wnet_result("WNetAddConnection2W", 2250), Err(e) if e.kind == PlatformErrorKind::NotFound));
    assert!(matches!(wnet_result("WNetAddConnection2W", 1219), Err(e) if e.kind == PlatformErrorKind::InvalidConfig));
    assert!(matches!(wnet_result("WNetAddConnection2W", 53), Err(e) if e.kind == PlatformErrorKind::Internal));
    assert_eq!(win32_error("LookupAccountNameW", 5).kind, PlatformErrorKind::PermissionDenied);
}

#[test]
fn secrets_come_from_the_literal_or_the_environment() {
    assert_eq!(resolve_secret(&SecretRef::Literal("pw".into()), None), Ok("pw".to_string()));
    assert_eq!(resolve_secret(&SecretRef::Env("SMB_PW".into()), Some("x".into())), Ok("x".to_string()));
    let Err(error) = resolve_secret(&SecretRef::Env("SMB_PW".into()), None) else {
        panic!("a missing variable is refused");
    };
    assert_eq!(error.message, "required secret environment variable \"SMB_PW\" is not set or is not Unicode");
}

#[test]
fn mappings_use_the_named_account_or_their_own_credentials() {
    let accounts = vec![SmbAccount {
        id: "Lab".into(),
        kind: SmbAccountKind::Credential,
        username: "lab-user".into(),
        password: None,
    }];
    let cfg = config(accounts);
    assert!(matches!(mapping_credentials(&cfg, &mapping(Some("lab"), None)), Ok(MappingCredentials::Account(0))));
    assert!(matches!(mapping_credentials(&cfg, &mapping(None, None)), Ok(MappingCredentials::Inline)));
    let Err(error) = mapping_credentials(&cfg, &mapping(Some("other"), None)) else {
        panic!("an undeclared account is refused");
    };
    assert_eq!(error.message, "unknown SMB account reference \"other\"");
}

#[test]
fn an_existing_drive_mapping_is_kept_or_refused() {
    assert_eq!(existing_mapping("Z:", None, r"\\server\share"), Ok(false));
    assert_eq!(existing_mapping("Z:", Some(r"\\SERVER\share".into()), r"\\server\share"), Ok(true));
    let Err(error) = existing_mapping("Z:", Some(r"\\other\x".into()), r"\\server\share") else {
        panic!("another share on the drive is refused");
    };
    assert_eq!(error.message, r#"SMB local device "Z:" is already mapped to "\\\\other\\x""#);
    assert_eq!(mapping_rollback_target(&mapping(None, Some("Z:"))), "Z:");
    assert_eq!(mapping_rollback_target(&mapping(None, None)), r"\\server\share");
}

#[test]
fn share_update_failures_report_their_rollback() {
    let error = PlatformError::internal("SetSecurityInfo failed".into());
    let restored = share_update_failure(error.clone(), None);
    assert!(restored.rolled_back);
    assert_eq!(restored.message, "SetSecurityInfo failed");
    let failed = share_update_failure(error, Some(PlatformError::internal("NetShareSetInfo failed".into())));
    assert!(!failed.rolled_back);
    assert_eq!(failed.message, "SetSecurityInfo failed; immediate share rollback failed: NetShareSetInfo failed");
}

fn share(read_only: bool, accounts: &[&str]) -> SmbShare {
    SmbShare {
        name: "data".into(),
        path: r"C:\data".into(),
        description: None,
        read_only,
        accounts: accounts.iter().map(|a| a.to_string()).collect(),
    }
}

fn account(id: &str) -> SmbAccount {
    SmbAccount { id: id.into(), kind: SmbAccountKind::Local, username: format!("user-{id}"), password: None }
}

#[test]
fn a_share_without_accounts_grants_everyone_and_administrators() {
    let grants = share_grants(&config(Vec::new()), &share(true, &[])).ok();
    assert_eq!(
        grants,
        Some(vec![
            ShareGrant { trustee: Trustee::Everyone, full_control: false },
            ShareGrant { trustee: Trustee::Administrators, full_control: true },
        ])
    );
}

#[test]
fn share_accounts_are_found_ignoring_case() {
    let cfg = config(vec![account("ops"), account("lab")]);
    let grants = share_grants(&cfg, &share(false, &["LAB", "ops"])).ok();
    assert_eq!(
        grants,
        Some(vec![
            ShareGrant { trustee: Trustee::Account(1), full_control: true },
            ShareGrant { trustee: Trustee::Account(0), full_control: true },
            ShareGrant { trustee: Trustee::Administrators, full_control: true },
        ])
    );
    let error = share_grants(&cfg, &share(false, &["ops", "missing"])).err().unwrap();
    assert_eq!(error.kind, PlatformErrorKind::InvalidConfig);
    assert_eq!(error.message, "unknown SMB account reference \"missing\"");
}

#[test]
fn only_missing_local_accounts_are_created() {
    assert!(creates_account(SmbAccountKind::Local, false));
    assert!(!creates_account(SmbAccountKind::Local, true));
    assert!(!creates_account(SmbAccountKind::Credential, false));
}

#[test]
fn missing_users_and_mappings_are_not_failures() {
    assert_eq!(netplan::smb::user_lookup(0).ok(), Some(true));
    assert_eq!(netplan::smb::user_lookup(2221).ok(), Some(false));
    let error = netplan::smb::user_lookup(5).err().unwrap();
    assert_eq!(error.kind, PlatformErrorKind::PermissionDenied);
    assert_eq!(error.message, "NetUserGetInfo failed with Windows error 5");
    assert!(netplan::smb::user_deleted(2221).is_ok());
    assert!(netplan::smb::user_deleted(5).is_err());
    assert!(netplan::smb::mapping_cancelled(2250).is_ok());
    assert_eq!(
        netplan::smb::mapping_cancelled(1326).err().unwrap().message,
        "WNetCancelConnection2W failed with Windows error 1326"
    );
}
