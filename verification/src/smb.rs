//! Decisions of the SMB backend: what NetAPI and WNet error codes mean, which
//! credentials a mapping uses, whether a drive mapping is already in place,
//! and how a failed share update is reported.

use vstd::prelude::*;

use crate::config::{NetplanConfig, SecretRef, SmbAccount, SmbAccountKind, SmbMapping, SmbShare};
use crate::platform::{PlatformError, PlatformErrorKind};
use crate::text::{append, debug_string, debug_text, dec, decimal, eq_ignore_case, owned, str_eq_ignore_case};

verus! {

/// `ERROR_ACCESS_DENIED`.
pub const ERROR_ACCESS_DENIED: u32 = 5;

/// `ERROR_ALREADY_ASSIGNED`.
pub const ERROR_ALREADY_ASSIGNED: u32 = 85;

/// `ERROR_INVALID_PASSWORD`.
pub const ERROR_INVALID_PASSWORD: u32 = 86;

/// `ERROR_INVALID_PARAMETER`.
pub const ERROR_INVALID_PARAMETER: u32 = 87;

/// `ERROR_SESSION_CREDENTIAL_CONFLICT`.
pub const ERROR_SESSION_CREDENTIAL_CONFLICT: u32 = 1219;

/// `ERROR_LOGON_FAILURE`.
pub const ERROR_LOGON_FAILURE: u32 = 1326;

/// `NERR_DuplicateShare`.
pub const NERR_DUPLICATE_SHARE: u32 = 2118;

/// `ERROR_BAD_USERNAME`.
pub const ERROR_BAD_USERNAME: u32 = 2202;

/// `NERR_UserNotFound`.
pub const NERR_USER_NOT_FOUND: u32 = 2221;

/// `ERROR_NOT_CONNECTED`.
pub const ERROR_NOT_CONNECTED: u32 = 2250;

/// `NERR_NetNameNotFound`.
pub const NERR_NET_NAME_NOT_FOUND: u32 = 2310;

/// `{operation} failed with Windows error {code}`.
pub open spec fn windows_failure_text(operation: Seq<char>, code: u32) -> Seq<char> {
    operation + " failed with Windows error "@ + dec(code as nat)
}

fn windows_failure(operation: &str, code: u32) -> (r: String)
    ensures
        r@ == windows_failure_text(operation@, code),
{
    let mut m = owned(operation);
    append(&mut m, " failed with Windows error ");
    let d = decimal(code as u64);
    append(&mut m, d.as_str());
    m
}

/// The failure category of a NetAPI status code.
pub open spec fn net_api_kind(code: u32) -> PlatformErrorKind {
    if code == ERROR_ACCESS_DENIED {
        PlatformErrorKind::PermissionDenied
    } else if code == NERR_USER_NOT_FOUND || code == NERR_NET_NAME_NOT_FOUND {
        PlatformErrorKind::NotFound
    } else if code == NERR_DUPLICATE_SHARE || code == ERROR_INVALID_PARAMETER || code == ERROR_BAD_USERNAME {
        PlatformErrorKind::InvalidConfig
    } else {
        PlatformErrorKind::Internal
    }
}

/// The outcome of a NetAPI call: success for status zero, else a failure
/// naming the operation, the status, and the faulty parameter when one is
/// reported.
pub fn net_api_result(operation: &str, code: u32, parameter: Option<u32>) -> (r: Result<(), PlatformError>)
    ensures
        code == 0 ==> r is Ok,
        code != 0 ==> (r matches Err(e) && e.kind == net_api_kind(code) && !e.rolled_back && e.message@
            == windows_failure_text(operation@, code) + match parameter {
            Some(p) => if p != 0 {
                " at parameter "@ + dec(p as nat)
            } else {
                Seq::empty()
            },
            None => Seq::empty(),
        }),
{
    if code == 0 {
        return Ok(());
    }
    let mut message = windows_failure(operation, code);
    if let Some(p) = parameter {
        if p != 0 {
            append(&mut message, " at parameter ");
            let d = decimal(p as u64);
            append(&mut message, d.as_str());
        }
    }
    let kind = if code == ERROR_ACCESS_DENIED {
        PlatformErrorKind::PermissionDenied
    } else if code == NERR_USER_NOT_FOUND || code == NERR_NET_NAME_NOT_FOUND {
        PlatformErrorKind::NotFound
    } else if code == NERR_DUPLICATE_SHARE || code == ERROR_INVALID_PARAMETER || code == ERROR_BAD_USERNAME {
        PlatformErrorKind::InvalidConfig
    } else {
        PlatformErrorKind::Internal
    };
    Err(PlatformError { kind, message, rolled_back: false })
}

/// The failure category of a WNet status code.
pub open spec fn wnet_kind(code: u32) -> PlatformErrorKind {
    if code == ERROR_ACCESS_DENIED || code == ERROR_LOGON_FAILURE || code == ERROR_INVALID_PASSWORD {
        PlatformErrorKind::PermissionDenied
    } else if code == ERROR_NOT_CONNECTED {
        PlatformErrorKind::NotFound
    } else if code == ERROR_ALREADY_ASSIGNED || code == ERROR_INVALID_PARAMETER || code == ERROR_BAD_USERNAME
        || code == ERROR_SESSION_CREDENTIAL_CONFLICT {
        PlatformErrorKind::InvalidConfig
    } else {
        PlatformErrorKind::Internal
    }
}

/// The outcome of a WNet call.
pub fn wnet_result(operation: &str, code: u32) -> (r: Result<(), PlatformError>)
    ensures
        code == 0 ==> r is Ok,
        code != 0 ==> (r matches Err(e) && e.kind == wnet_kind(code) && !e.rolled_back && e.message@
            == windows_failure_text(operation@, code)),
{
    if code == 0 {
        return Ok(());
    }
    let kind = if code == ERROR_ACCESS_DENIED || code == ERROR_LOGON_FAILURE || code == ERROR_INVALID_PASSWORD {
        PlatformErrorKind::PermissionDenied
    } else if code == ERROR_NOT_CONNECTED {
        PlatformErrorKind::NotFound
    } else if code == ERROR_ALREADY_ASSIGNED || code == ERROR_INVALID_PARAMETER || code == ERROR_BAD_USERNAME
        || code == ERROR_SESSION_CREDENTIAL_CONFLICT {
        PlatformErrorKind::InvalidConfig
    } else {
        PlatformErrorKind::Internal
    };
    Err(PlatformError { kind, message: windows_failure(operation, code), rolled_back: false })
}

/// Whether a local user exists, from the status of looking it up: a user
/// that is not found does not exist; another failure is an error.
pub fn user_lookup(code: u32) -> (r: Result<bool, PlatformError>)
    ensures
        code == 0 ==> r == Ok::<bool, PlatformError>(true),
        code == NERR_USER_NOT_FOUND ==> r == Ok::<bool, PlatformError>(false),
        code != 0 && code != NERR_USER_NOT_FOUND ==> (r matches Err(e) && e.kind == net_api_kind(code)
            && !e.rolled_back && e.message@ == windows_failure_text("NetUserGetInfo"@, code)),
{
    if code == NERR_USER_NOT_FOUND {
        return Ok(false);
    }
    match net_api_result("NetUserGetInfo", code, None) {
        Ok(()) => Ok(true),
        Err(e) => Err(e),
    }
}

/// The outcome of deleting a local user: one that is already gone counts as deleted.
pub fn user_deleted(code: u32) -> (r: Result<(), PlatformError>)
    ensures
        code == 0 || code == NERR_USER_NOT_FOUND ==> r is Ok,
        code != 0 && code != NERR_USER_NOT_FOUND ==> (r matches Err(e) && e.kind == net_api_kind(code)
            && !e.rolled_back && e.message@ == windows_failure_text("NetUserDel"@, code)),
{
    if code == NERR_USER_NOT_FOUND {
        Ok(())
    } else {
        net_api_result("NetUserDel", code, None)
    }
}

/// The outcome of cancelling a mapping: one that is not connected counts as cancelled.
pub fn mapping_cancelled(code: u32) -> (r: Result<(), PlatformError>)
    ensures
        code == 0 || code == ERROR_NOT_CONNECTED ==> r is Ok,
        code != 0 && code != ERROR_NOT_CONNECTED ==> (r matches Err(e) && e.kind == wnet_kind(code)
            && !e.rolled_back && e.message@ == windows_failure_text("WNetCancelConnection2W"@, code)),
{
    if code == ERROR_NOT_CONNECTED {
        Ok(())
    } else {
        wnet_result("WNetCancelConnection2W", code)
    }
}

/// A failed Win32 call: access denied, or an internal failure.
pub fn win32_error(operation: &str, code: u32) -> (e: PlatformError)
    ensures
        e.kind == (if code == ERROR_ACCESS_DENIED {
            PlatformErrorKind::PermissionDenied
        } else {
            PlatformErrorKind::Internal
        }),
        e.message@ == windows_failure_text(operation@, code),
        !e.rolled_back,
{
    let kind = if code == ERROR_ACCESS_DENIED {
        PlatformErrorKind::PermissionDenied
    } else {
        PlatformErrorKind::Internal
    };
    PlatformError { kind, message: windows_failure(operation, code), rolled_back: false }
}

/// The value of a secret: a literal as written; an environment variable by
/// the value that the environment gave for it, which must exist.
pub fn resolve_secret(secret: &SecretRef, environment_value: Option<String>) -> (r: Result<String, PlatformError>)
    ensures
        match *secret {
            SecretRef::Literal(v) => r matches Ok(s) && s@ == v@,
            SecretRef::Env(name) => match environment_value {
                Some(v) => r matches Ok(s) && s@ == v@,
                None => r matches Err(e) && e.kind == PlatformErrorKind::NotFound && !e.rolled_back
                    && e.message@ == "required secret environment variable "@ + debug_text(name@)
                    + " is not set or is not Unicode"@,
            },
        },
{
    match secret {
        SecretRef::Literal(v) => Ok(v.clone()),
        SecretRef::Env(name) => match environment_value {
            Some(v) => Ok(v),
            None => {
                let mut m = owned("required secret environment variable ");
                let d = debug_string(name.as_str());
                append(&mut m, d.as_str());
                append(&mut m, " is not set or is not Unicode");
                Err(PlatformError::not_found(m))
            },
        },
    }
}

/// Position of the first account whose identifier matches a reference,
/// ignoring ASCII case.
pub open spec fn account_position(accounts: Seq<SmbAccount>, reference: Seq<char>) -> Option<int>
    decreases accounts.len(),
{
    if accounts.len() == 0 {
        None
    } else {
        match account_position(accounts.drop_last(), reference) {
            Some(i) => Some(i),
            None => if eq_ignore_case(accounts.last().id@, reference) {
                Some(accounts.len() - 1)
            } else {
                None
            },
        }
    }
}

proof fn lemma_account_position_prefix(accounts: Seq<SmbAccount>, reference: Seq<char>, m: int)
    requires
        0 <= m <= accounts.len(),
        account_position(accounts.take(m), reference) is Some,
    ensures
        account_position(accounts, reference) == account_position(accounts.take(m), reference),
    decreases accounts.len() - m,
{
    if m < accounts.len() {
        assert(accounts.take(m + 1).drop_last() =~= accounts.take(m));
        lemma_account_position_prefix(accounts, reference, m + 1);
    } else {
        assert(accounts.take(m) =~= accounts);
    }
}

/// Where a mapping's credentials come from: the declared account it names
/// (by position), or the mapping's own user name and password.
pub enum MappingCredentials {
    /// The account at this position in `smb.accounts`.
    Account(usize),
    /// The mapping's own fields.
    Inline,
}

proof fn lemma_account_grants_prefix(accounts: Seq<SmbAccount>, references: Seq<String>, full: bool, m: int)
    requires
        0 <= m <= references.len(),
        account_grants(accounts, references.take(m), full) is Err,
    ensures
        account_grants(accounts, references, full) == account_grants(accounts, references.take(m), full),
    decreases references.len() - m,
{
    if m < references.len() {
        assert(references.take(m + 1).drop_last() =~= references.take(m));
        lemma_account_grants_prefix(accounts, references, full, m + 1);
    } else {
        assert(references.take(m) =~= references);
    }
}

/// Position of the first account whose identifier matches a reference,
/// ignoring ASCII case.
pub fn find_account_index(accounts: &Vec<SmbAccount>, reference: &str) -> (r: Option<usize>)
    ensures
        match account_position(accounts@, reference@) {
            Some(i) => r matches Some(j) && j == i,
            None => r is None,
        },
{
    let n = accounts.len();
    for i in 0..n
        invariant
            n == accounts@.len(),
            account_position(accounts@.take(i as int), reference@) is None,
    {
        proof {
            assert(accounts@.take(i + 1).drop_last() =~= accounts@.take(i as int));
            assert(accounts@.take(i + 1).last() == accounts@[i as int]);
        }
        if str_eq_ignore_case(accounts[i].id.as_str(), reference) {
            proof {
                lemma_account_position_prefix(accounts@, reference@, i + 1);
            }
            return Some(i);
        }
    }
    assert(accounts@.take(n as int) =~= accounts@);
    None
}

fn unknown_reference(reference: &str) -> (e: PlatformError)
    ensures
        e.kind == PlatformErrorKind::InvalidConfig,
        !e.rolled_back,
        e.message@ == "unknown SMB account reference "@ + debug_text(reference@),
{
    let mut m = owned("unknown SMB account reference ");
    let d = debug_string(reference);
    append(&mut m, d.as_str());
    PlatformError::invalid_config(m)
}

/// Chooses the credentials of a mapping; a reference to an undeclared
/// account is refused.
pub fn mapping_credentials(config: &NetplanConfig, mapping: &SmbMapping) -> (r: Result<
    MappingCredentials,
    PlatformError,
>)
    ensures
        match mapping.account {
            None => r matches Ok(MappingCredentials::Inline),
            Some(reference) => match account_position(config.smb.accounts@, reference@) {
                Some(i) => r matches Ok(MappingCredentials::Account(j)) && j == i,
                None => r matches Err(e) && e.kind == PlatformErrorKind::InvalidConfig && !e.rolled_back
                    && e.message@ == "unknown SMB account reference "@ + debug_text(reference@),
            },
        },
{
    match &mapping.account {
        None => Ok(MappingCredentials::Inline),
        Some(reference) => {
            let r = reference.as_str();
            assert(r@ == reference@);
            let found = find_account_index(&config.smb.accounts, r);
            match found {
                Some(i) => {
                    Ok(MappingCredentials::Account(i))
                },
                None => Err(unknown_reference(reference.as_str())),
            }
        },
    }
}

/// Who a share grants access to.
#[derive(Clone, Copy, Debug, PartialEq, Eq, Structural)]
pub enum Trustee {
    /// The world (`Everyone`).
    Everyone,
    /// The built-in Administrators group.
    Administrators,
    /// The declared account at this position in `smb.accounts`.
    Account(usize),
}

/// One entry of a share's access list.
#[derive(Clone, Copy, Debug, PartialEq, Eq, Structural)]
pub struct ShareGrant {
    /// Who is granted access.
    pub trustee: Trustee,
    /// Full control when true, read access otherwise.
    pub full_control: bool,
}

/// The grants of the share's account references, in order; the first
/// reference that names no declared account is the error.
pub open spec fn account_grants(accounts: Seq<SmbAccount>, references: Seq<String>, full: bool) -> Result<
    Seq<ShareGrant>,
    Seq<char>,
>
    decreases references.len(),
{
    if references.len() == 0 {
        Ok(Seq::empty())
    } else {
        match account_grants(accounts, references.drop_last(), full) {
            Err(r) => Err(r),
            Ok(g) => match account_position(accounts, references.last()@) {
                None => Err(references.last()@),
                Some(i) => Ok(g.push(ShareGrant { trustee: Trustee::Account(i as usize), full_control: full })),
            },
        }
    }
}

/// The access list of a share: everyone, or each referenced account, with
/// read access when the share is read-only and full control otherwise; then
/// full control for Administrators.
pub open spec fn share_access(accounts: Seq<SmbAccount>, share: SmbShare) -> Result<Seq<ShareGrant>, Seq<char>> {
    let full = !share.read_only;
    let admin = ShareGrant { trustee: Trustee::Administrators, full_control: true };
    if share.accounts@.len() == 0 {
        Ok(seq![ShareGrant { trustee: Trustee::Everyone, full_control: full }, admin])
    } else {
        match account_grants(accounts, share.accounts@, full) {
            Err(r) => Err(r),
            Ok(g) => Ok(g.push(admin)),
        }
    }
}

/// Whatever a share grants, its access list ends with full control for the
/// built-in Administrators group, and every other entry has read access
/// exactly when the share is read-only.
pub proof fn lemma_administrators_keep_full_control(accounts: Seq<SmbAccount>, share: SmbShare)
    ensures
        share_access(accounts, share) matches Ok(g) ==> (g.len() > 0 && g.last() == ShareGrant {
            trustee: Trustee::Administrators,
            full_control: true,
        } && forall|k: int| 0 <= k < g.len() - 1 ==> (#[trigger] g[k]).full_control == !share.read_only
            && g[k].trustee != Trustee::Administrators),
{
    if share.accounts@.len() > 0 {
        lemma_account_grants_shape(accounts, share.accounts@, !share.read_only);
    }
}

proof fn lemma_account_grants_shape(accounts: Seq<SmbAccount>, references: Seq<String>, full: bool)
    ensures
        account_grants(accounts, references, full) matches Ok(g) ==> forall|k: int|
            0 <= k < g.len() ==> (#[trigger] g[k]).full_control == full && g[k].trustee is Account,
    decreases references.len(),
{
    if references.len() > 0 {
        lemma_account_grants_shape(accounts, references.drop_last(), full);
    }
}

/// The access list that a share is created or updated with.
pub fn share_grants(config: &NetplanConfig, share: &SmbShare) -> (r: Result<Vec<ShareGrant>, PlatformError>)
    ensures
        match share_access(config.smb.accounts@, *share) {
            Ok(g) => r matches Ok(v) && v@ == g,
            Err(reference) => r matches Err(e) && e.kind == PlatformErrorKind::InvalidConfig
                && !e.rolled_back && e.message@ == "unknown SMB account reference "@ + debug_text(
                reference,
            ),
        },
{
    let full = !share.read_only;
    let mut out: Vec<ShareGrant> = Vec::new();
    if share.accounts.len() == 0 {
        out.push(ShareGrant { trustee: Trustee::Everyone, full_control: full });
    } else {
        let refs = &share.accounts;
        let n = refs.len();
        for i in 0..n
            invariant
                n == refs@.len(),
                refs == &share.accounts,
                full == !share.read_only,
                account_grants(config.smb.accounts@, refs@.take(i as int), full) == Ok::<
                    Seq<ShareGrant>,
                    Seq<char>,
                >(out@),
        {
            proof {
                assert(refs@.take(i + 1).drop_last() =~= refs@.take(i as int));
                assert(refs@.take(i + 1).last() == refs@[i as int]);
            }
            match find_account_index(&config.smb.accounts, refs[i].as_str()) {
                Some(k) => {
                    out.push(ShareGrant { trustee: Trustee::Account(k), full_control: full });
                },
                None => {
                    proof {
                        lemma_account_grants_prefix(config.smb.accounts@, refs@, full, i + 1);
                    }
                    return Err(unknown_reference(refs[i].as_str()));
                },
            }
        }
        assert(refs@.take(n as int) =~= refs@);
    }
    out.push(ShareGrant { trustee: Trustee::Administrators, full_control: true });
    Ok(out)
}

/// Whether an account is created: only a local account that does not exist
/// yet (an existing account's password cannot be read back for a rollback).
pub fn creates_account(kind: SmbAccountKind, exists: bool) -> (r: bool)
    ensures
        r == (kind == SmbAccountKind::Local && !exists),
{
    match kind {
        SmbAccountKind::Local => !exists,
        _ => false,
    }
}

/// What to do about a drive letter that is already mapped: nothing when it
/// already reaches the configured share (ignoring ASCII case); a refusal when
/// it reaches another. `Ok(true)` means the mapping is already in place.
pub fn existing_mapping(local: &str, existing: Option<String>, remote: &str) -> (r: Result<bool, PlatformError>)
    ensures
        match existing {
            None => r == Ok::<bool, PlatformError>(false),
            Some(e) => if eq_ignore_case(e@, remote@) {
                r == Ok::<bool, PlatformError>(true)
            } else {
                r matches Err(err) && err.kind == PlatformErrorKind::InvalidConfig && !err.rolled_back
                    && err.message@ == "SMB local device "@ + debug_text(local@) + " is already mapped to "@
                    + debug_text(e@)
            },
        },
{
    match existing {
        None => Ok(false),
        Some(e) => {
            if str_eq_ignore_case(e.as_str(), remote) {
                Ok(true)
            } else {
                let mut m = owned("SMB local device ");
                let a = debug_string(local);
                append(&mut m, a.as_str());
                append(&mut m, " is already mapped to ");
                let b = debug_string(e.as_str());
                append(&mut m, b.as_str());
                Err(PlatformError::invalid_config(m))
            }
        },
    }
}

/// What a mapping is undone by: its drive letter, or the share itself when
/// it has none.
pub fn mapping_rollback_target(mapping: &SmbMapping) -> (r: String)
    ensures
        r@ == match mapping.local {
            Some(l) => l@,
            None => mapping.remote@,
        },
{
    match &mapping.local {
        Some(l) => l.clone(),
        None => mapping.remote.clone(),
    }
}

/// The failure of updating an existing share's security, after the share's
/// previous settings were put back (`restore` is that attempt's failure, if
/// it failed): rolled back exactly when the restore succeeded.
pub fn share_update_failure(error: PlatformError, restore: Option<PlatformError>) -> (r: PlatformError)
    ensures
        r.kind == error.kind,
        r.rolled_back == (restore is None),
        r.message@ == match restore {
            None => error.message@,
            Some(x) => error.message@ + "; immediate share rollback failed: "@ + x.message@,
        },
{
    match restore {
        None => PlatformError { kind: error.kind, message: error.message, rolled_back: true },
        Some(x) => {
            let mut m = error.message;
            append(&mut m, "; immediate share rollback failed: ");
            append(&mut m, x.message.as_str());
            PlatformError { kind: error.kind, message: m, rolled_back: false }
        },
    }
}

} // verus!
