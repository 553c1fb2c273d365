//! Capability reports of the platform backends and the capability gate that a
//! live configuration passes before any mutation.

use vstd::prelude::*;

use crate::checks::first_problem;
use crate::codec::views;
use crate::config::NetplanConfig;
use crate::error::Error;
use crate::model::{AdapterInfo, Capability, CapabilityState, CapabilityView, WifiInterfaceStatus, WifiNetwork};
use crate::plan::{build_plan, plan_of, OperationRisk, OperationView};
use crate::text::{append, debug_string, debug_text, owned};

verus! {

/// Successful platform transaction report.
#[derive(Clone, Debug, PartialEq, Eq)]
pub struct ApplyReport {
    /// Human-readable summary stored with the daemon job.
    pub message: String,
}

/// Stable platform failure category.
#[derive(Clone, Copy, Debug, PartialEq, Eq, Structural)]
pub enum PlatformErrorKind {
    /// A selector is ambiguous or another runtime invariant is invalid.
    InvalidConfig,
    /// A required API, service, or backend is unavailable.
    Unsupported,
    /// The daemon lacks permission for the requested mutation.
    PermissionDenied,
    /// A selected adapter or operating-system object does not exist.
    NotFound,
    /// Execution failed for another reason.
    Internal,
}

/// Failure returned by a platform preflight or transaction.
#[derive(Clone, Debug, PartialEq, Eq)]
pub struct PlatformError {
    /// Stable failure category.
    pub kind: PlatformErrorKind,
    /// Human-readable diagnostic without secret material.
    pub message: String,
    /// Whether every completed mutation was successfully rolled back.
    pub rolled_back: bool,
}

impl PlatformError {
    /// A failure of the given kind that rolled nothing back.
    pub fn new(kind: PlatformErrorKind, message: String) -> (e: PlatformError)
        ensures
            e.kind == kind,
            e.message@ == message@,
            !e.rolled_back,
    {
        PlatformError { kind, message, rolled_back: false }
    }

    /// A required API, service, or backend is unavailable.
    pub fn unsupported(message: String) -> (e: PlatformError)
        ensures
            e.kind == PlatformErrorKind::Unsupported,
            e.message@ == message@,
            !e.rolled_back,
    {
        PlatformError::new(PlatformErrorKind::Unsupported, message)
    }

    /// A selector is ambiguous or another runtime invariant is invalid.
    pub fn invalid_config(message: String) -> (e: PlatformError)
        ensures
            e.kind == PlatformErrorKind::InvalidConfig,
            e.message@ == message@,
            !e.rolled_back,
    {
        PlatformError::new(PlatformErrorKind::InvalidConfig, message)
    }

    /// The daemon lacks permission for the requested mutation.
    pub fn permission_denied(message: String) -> (e: PlatformError)
        ensures
            e.kind == PlatformErrorKind::PermissionDenied,
            e.message@ == message@,
            !e.rolled_back,
    {
        PlatformError::new(PlatformErrorKind::PermissionDenied, message)
    }

    /// A selected object does not exist.
    pub fn not_found(message: String) -> (e: PlatformError)
        ensures
            e.kind == PlatformErrorKind::NotFound,
            e.message@ == message@,
            !e.rolled_back,
    {
        PlatformError::new(PlatformErrorKind::NotFound, message)
    }

    /// Execution failed for another reason.
    pub fn internal(message: String) -> (e: PlatformError)
        ensures
            e.kind == PlatformErrorKind::Internal,
            e.message@ == message@,
            !e.rolled_back,
    {
        PlatformError::new(PlatformErrorKind::Internal, message)
    }
}

/// The portable development backend.
pub struct PortablePlatform;

/// The Windows backend.
pub struct WindowsPlatform;

/// What the Windows backend found on the image: whether its tools exist, and
/// the reason each native API is unusable, if it is.
#[derive(Clone, Debug, PartialEq, Eq)]
pub struct PlatformProbes {
    /// `netsh.exe` is present.
    pub netsh: bool,
    /// `pnputil.exe` is present.
    pub pnputil: bool,
    /// The `newdev.dll` force-install backend is present.
    pub force_driver: bool,
    /// Why the Native Wi-Fi API is unusable, if it is.
    pub wifi: Option<String>,
    /// Why local account management is unusable, if it is.
    pub accounts: Option<String>,
    /// Why SMB share management is unusable, if it is.
    pub shares: Option<String>,
    /// Why SMB drive mapping is unusable, if it is.
    pub mappings: Option<String>,
}

pub open spec fn capv(name: Seq<char>, state: CapabilityState, reason: Option<Seq<char>>) -> CapabilityView {
    CapabilityView { name, state, reason }
}

/// A capability that needs a tool of the image.
pub open spec fn tool(name: Seq<char>, present: bool, missing: Seq<char>) -> CapabilityView {
    if present {
        capv(name, CapabilityState::Available, None)
    } else {
        capv(name, CapabilityState::Unavailable, Some(missing))
    }
}

/// A capability that needs a native API whose probe failed with `failure`.
pub open spec fn probed(name: Seq<char>, failure: Option<String>) -> CapabilityView {
    match failure {
        None => capv(name, CapabilityState::Available, None),
        Some(reason) => capv(name, CapabilityState::Unavailable, Some(reason@)),
    }
}

fn push_capability(out: &mut Vec<Capability>, name: &str, state: CapabilityState, reason: Option<&str>)
    ensures
        views(final(out)@) == views(old(out)@) + seq![
            capv(
                name@,
                state,
                match reason {
                    Some(r) => Some(r@),
                    None => None,
                },
            ),
        ],
{
    let reason = match reason {
        Some(r) => Some(owned(r)),
        None => None,
    };
    let c = Capability { name: owned(name), state, reason };
    let ghost v = c@;
    out.push(c);
    assert(views(out@) =~= views(old(out)@) + seq![v]);
}

fn push_tool(out: &mut Vec<Capability>, name: &str, present: bool, missing: &str)
    ensures
        views(final(out)@) == views(old(out)@) + seq![tool(name@, present, missing@)],
{
    if present {
        push_capability(out, name, CapabilityState::Available, None);
    } else {
        push_capability(out, name, CapabilityState::Unavailable, Some(missing));
    }
}

fn push_probed(out: &mut Vec<Capability>, name: &str, failure: &Option<String>)
    ensures
        views(final(out)@) == views(old(out)@) + seq![probed(name@, *failure)],
{
    match failure {
        None => push_capability(out, name, CapabilityState::Available, None),
        Some(reason) => push_capability(out, name, CapabilityState::Unavailable, Some(reason.as_str())),
    }
}

/// Capabilities of the portable development backend.
pub open spec fn portable_capabilities() -> Seq<CapabilityView> {
    seq![
        capv("config.validate"@, CapabilityState::Available, None),
        capv("config.plan"@, CapabilityState::Available, None),
        capv("config.apply"@, CapabilityState::DryRun, Some("live apply is Windows-only"@)),
        capv("adapter.inventory"@, CapabilityState::Unavailable, Some("native Windows IP Helper API is unavailable"@)),
        capv("adapter.state.apply"@, CapabilityState::Unavailable, Some("Windows adapter state APIs are unavailable"@)),
        capv("adapter.mac.apply"@, CapabilityState::Unavailable, Some("Windows adapter registry APIs are unavailable"@)),
        capv("adapter.ipv4.apply"@, CapabilityState::Unavailable, Some("Windows IP configuration APIs are unavailable"@)),
        capv("firewall.apply"@, CapabilityState::Unavailable, Some("Windows firewall APIs are unavailable"@)),
        capv("service.apply"@, CapabilityState::Unavailable, Some("Windows service control manager is unavailable"@)),
        capv("driver.install"@, CapabilityState::Unavailable, Some("Windows driver installation APIs are unavailable"@)),
        capv("driver.force_install"@, CapabilityState::Unavailable, Some("Windows driver installation APIs are unavailable"@)),
        capv("adapter.restart"@, CapabilityState::Unavailable, Some("Windows device APIs are unavailable"@)),
        capv("hook.execute"@, CapabilityState::Unavailable, Some("live hooks are disabled outside Windows"@)),
        capv("identity.computer_name.apply"@, CapabilityState::Unavailable, Some("Windows identity APIs are unavailable"@)),
        capv("identity.workgroup.apply"@, CapabilityState::Unavailable, Some("Windows identity APIs are unavailable"@)),
        capv("identity.dns_suffix.apply"@, CapabilityState::Unavailable, Some("Windows identity APIs are unavailable"@)),
        capv("wifi.status"@, CapabilityState::Unavailable, Some("Windows WLAN API is unavailable"@)),
        capv("wifi.profile.apply"@, CapabilityState::Unavailable, Some("Windows WLAN API is unavailable"@)),
        capv("wifi.scan"@, CapabilityState::Unavailable, Some("Windows WLAN API is unavailable"@)),
        capv("wifi.connect"@, CapabilityState::Unavailable, Some("Windows WLAN API is unavailable"@)),
        capv("wifi.disconnect"@, CapabilityState::Unavailable, Some("Windows WLAN API is unavailable"@)),
        capv("smb.account.apply"@, CapabilityState::Unavailable, Some("Windows SMB APIs are unavailable"@)),
        capv("smb.share.apply"@, CapabilityState::Unavailable, Some("Windows SMB APIs are unavailable"@)),
        capv("smb.mapping.apply"@, CapabilityState::Unavailable, Some("Windows SMB APIs are unavailable"@)),
    ]
}

impl PortablePlatform {
    /// Report feature availability: everything but validation and planning
    /// needs Windows.
    pub fn capabilities(&self) -> (r: Vec<Capability>)
        ensures
            views(r@) == portable_capabilities(),
    {
        let mut out: Vec<Capability> = Vec::new();
        push_capability(&mut out, "config.validate", CapabilityState::Available, None);
        push_capability(&mut out, "config.plan", CapabilityState::Available, None);
        push_capability(&mut out, "config.apply", CapabilityState::DryRun, Some("live apply is Windows-only"));
        push_capability(&mut out, "adapter.inventory", CapabilityState::Unavailable, Some("native Windows IP Helper API is unavailable"));
        push_capability(&mut out, "adapter.state.apply", CapabilityState::Unavailable, Some("Windows adapter state APIs are unavailable"));
        push_capability(&mut out, "adapter.mac.apply", CapabilityState::Unavailable, Some("Windows adapter registry APIs are unavailable"));
        push_capability(&mut out, "adapter.ipv4.apply", CapabilityState::Unavailable, Some("Windows IP configuration APIs are unavailable"));
        push_capability(&mut out, "firewall.apply", CapabilityState::Unavailable, Some("Windows firewall APIs are unavailable"));
        push_capability(&mut out, "service.apply", CapabilityState::Unavailable, Some("Windows service control manager is unavailable"));
        push_capability(&mut out, "driver.install", CapabilityState::Unavailable, Some("Windows driver installation APIs are unavailable"));
        push_capability(&mut out, "driver.force_install", CapabilityState::Unavailable, Some("Windows driver installation APIs are unavailable"));
        push_capability(&mut out, "adapter.restart", CapabilityState::Unavailable, Some("Windows device APIs are unavailable"));
        push_capability(&mut out, "hook.execute", CapabilityState::Unavailable, Some("live hooks are disabled outside Windows"));
        push_capability(&mut out, "identity.computer_name.apply", CapabilityState::Unavailable, Some("Windows identity APIs are unavailable"));
        push_capability(&mut out, "identity.workgroup.apply", CapabilityState::Unavailable, Some("Windows identity APIs are unavailable"));
        push_capability(&mut out, "identity.dns_suffix.apply", CapabilityState::Unavailable, Some("Windows identity APIs are unavailable"));
        push_capability(&mut out, "wifi.status", CapabilityState::Unavailable, Some("Windows WLAN API is unavailable"));
        push_capability(&mut out, "wifi.profile.apply", CapabilityState::Unavailable, Some("Windows WLAN API is unavailable"));
        push_capability(&mut out, "wifi.scan", CapabilityState::Unavailable, Some("Windows WLAN API is unavailable"));
        push_capability(&mut out, "wifi.connect", CapabilityState::Unavailable, Some("Windows WLAN API is unavailable"));
        push_capability(&mut out, "wifi.disconnect", CapabilityState::Unavailable, Some("Windows WLAN API is unavailable"));
        push_capability(&mut out, "smb.account.apply", CapabilityState::Unavailable, Some("Windows SMB APIs are unavailable"));
        push_capability(&mut out, "smb.share.apply", CapabilityState::Unavailable, Some("Windows SMB APIs are unavailable"));
        push_capability(&mut out, "smb.mapping.apply", CapabilityState::Unavailable, Some("Windows SMB APIs are unavailable"));
        assert(views(out@) =~= portable_capabilities());
        out
    }
}

/// Capabilities of a Windows image with the given probe results.
pub open spec fn windows_capabilities(p: PlatformProbes) -> Seq<CapabilityView> {
    seq![
        capv("config.validate"@, CapabilityState::Available, None),
        capv("config.plan"@, CapabilityState::Available, None),
        capv("config.apply"@, CapabilityState::Available, None),
        capv("adapter.inventory"@, CapabilityState::Available, None),
        tool("adapter.ipv4.apply"@, p.netsh, "netsh.exe is unavailable in this image"@),
        tool("adapter.state.apply"@, p.netsh, "netsh.exe is unavailable in this image"@),
        tool("adapter.mac.apply"@, p.netsh, "netsh.exe is unavailable for adapter restart"@),
        tool("adapter.restart"@, p.netsh, "netsh.exe is unavailable in this image"@),
        tool("firewall.apply"@, p.netsh, "netsh.exe is unavailable in this image"@),
        capv("identity.computer_name.apply"@, CapabilityState::Available, None),
        capv("identity.workgroup.apply"@, CapabilityState::Available, None),
        capv("identity.dns_suffix.apply"@, CapabilityState::Available, None),
        capv("service.apply"@, CapabilityState::Available, None),
        capv("hook.execute"@, CapabilityState::Available, None),
        tool("driver.install"@, p.pnputil, "pnputil.exe is unavailable in this image"@),
        tool("driver.force_install"@, p.force_driver, "newdev.dll force-install backend is unavailable in this image"@),
        probed("wifi.status"@, p.wifi),
        probed("wifi.profile.apply"@, p.wifi),
        probed("wifi.scan"@, p.wifi),
        probed("wifi.connect"@, p.wifi),
        probed("wifi.disconnect"@, p.wifi),
        probed("smb.account.apply"@, p.accounts),
        probed("smb.share.apply"@, p.shares),
        probed("smb.mapping.apply"@, p.mappings),
    ]
}

impl WindowsPlatform {
    /// Report feature availability from the probes of the image.
    pub fn capabilities(&self, probes: &PlatformProbes) -> (r: Vec<Capability>)
        ensures
            views(r@) == windows_capabilities(*probes),
    {
        let mut out: Vec<Capability> = Vec::new();
        push_capability(&mut out, "config.validate", CapabilityState::Available, None);
        push_capability(&mut out, "config.plan", CapabilityState::Available, None);
        push_capability(&mut out, "config.apply", CapabilityState::Available, None);
        push_capability(&mut out, "adapter.inventory", CapabilityState::Available, None);
        push_tool(&mut out, "adapter.ipv4.apply", probes.netsh, "netsh.exe is unavailable in this image");
        push_tool(&mut out, "adapter.state.apply", probes.netsh, "netsh.exe is unavailable in this image");
        push_tool(&mut out, "adapter.mac.apply", probes.netsh, "netsh.exe is unavailable for adapter restart");
        push_tool(&mut out, "adapter.restart", probes.netsh, "netsh.exe is unavailable in this image");
        push_tool(&mut out, "firewall.apply", probes.netsh, "netsh.exe is unavailable in this image");
        push_capability(&mut out, "identity.computer_name.apply", CapabilityState::Available, None);
        push_capability(&mut out, "identity.workgroup.apply", CapabilityState::Available, None);
        push_capability(&mut out, "identity.dns_suffix.apply", CapabilityState::Available, None);
        push_capability(&mut out, "service.apply", CapabilityState::Available, None);
        push_capability(&mut out, "hook.execute", CapabilityState::Available, None);
        push_tool(&mut out, "driver.install", probes.pnputil, "pnputil.exe is unavailable in this image");
        push_tool(&mut out, "driver.force_install", probes.force_driver, "newdev.dll force-install backend is unavailable in this image");
        push_probed(&mut out, "wifi.status", &probes.wifi);
        push_probed(&mut out, "wifi.profile.apply", &probes.wifi);
        push_probed(&mut out, "wifi.scan", &probes.wifi);
        push_probed(&mut out, "wifi.connect", &probes.wifi);
        push_probed(&mut out, "wifi.disconnect", &probes.wifi);
        push_probed(&mut out, "smb.account.apply", &probes.accounts);
        push_probed(&mut out, "smb.share.apply", &probes.shares);
        push_probed(&mut out, "smb.mapping.apply", &probes.mappings);
        assert(views(out@) =~= windows_capabilities(*probes));
        out
    }
}

// ---------------------------------------------------------------------------
// The capability gate
// ---------------------------------------------------------------------------

/// Index of the first capability named `name`.
pub open spec fn find_capability(caps: Seq<CapabilityView>, name: Seq<char>) -> Option<int>
    decreases caps.len(),
{
    if caps.len() == 0 {
        None
    } else {
        match find_capability(caps.drop_last(), name) {
            Some(i) => Some(i),
            None => if caps.last().name == name {
                Some(caps.len() - 1)
            } else {
                None
            },
        }
    }
}

/// A capability allows an operation: it is available, or it is read-only
/// and so is the operation.
pub open spec fn permits(c: CapabilityView, op: OperationView) -> bool {
    c.state == CapabilityState::Available || (op.risk == OperationRisk::ReadOnly && c.state
        == CapabilityState::ReadOnly)
}

/// Why the capabilities refuse one operation, if they do.
pub open spec fn operation_refusal(caps: Seq<CapabilityView>, op: OperationView) -> Option<Seq<char>> {
    match find_capability(caps, op.capability) {
        None => Some(
            "operation "@ + debug_text(op.id) + " requires unreported capability "@ + debug_text(
                op.capability,
            ),
        ),
        Some(i) => if permits(caps[i], op) {
            None
        } else {
            Some(
                "operation "@ + debug_text(op.id) + " requires capability "@ + debug_text(
                    op.capability,
                ) + ": "@ + match caps[i].reason {
                    Some(r) => r,
                    None => "capability is not available for live execution"@,
                },
            )
        },
    }
}

/// Why the capabilities refuse the plan of a configuration: the refusal of
/// its first refused operation.
pub open spec fn plan_refusal(caps: Seq<CapabilityView>, config: NetplanConfig) -> Option<Seq<char>> {
    first_problem(0, plan_of(config).len() as int, |i: int| operation_refusal(caps, plan_of(config)[i]))
}

fn find_capability_index(caps: &Vec<Capability>, name: &String) -> (r: Option<usize>)
    ensures
        match r {
            Some(i) => find_capability(views(caps@), name@) == Some(i as int) && i < caps@.len(),
            None => find_capability(views(caps@), name@) is None,
        },
{
    let n = caps.len();
    for i in 0..n
        invariant
            n == caps@.len(),
            find_capability(views(caps@).take(i as int), name@) is None,
    {
        proof {
            assert(views(caps@).take(i + 1).drop_last() =~= views(caps@).take(i as int));
        }
        if caps[i].name == *name {
            proof {
                lemma_find_capability_prefix(views(caps@), name@, i + 1);
            }
            return Some(i);
        }
    }
    proof {
        assert(views(caps@).take(n as int) =~= views(caps@));
    }
    None
}

/// Finding in a prefix that contains the answer finds the same index.
proof fn lemma_find_capability_prefix(caps: Seq<CapabilityView>, name: Seq<char>, k: int)
    requires
        0 < k <= caps.len(),
        find_capability(caps.take(k), name) matches Some(i) && i < k,
    ensures
        find_capability(caps, name) == find_capability(caps.take(k), name),
    decreases caps.len() - k,
{
    if k < caps.len() {
        assert(caps.take(k + 1).drop_last() =~= caps.take(k));
        lemma_find_capability_prefix(caps, name, k + 1);
    } else {
        assert(caps.take(k) =~= caps);
    }
}

fn check_operation(caps: &Vec<Capability>, op: &crate::plan::Operation) -> (r: Result<(), String>)
    ensures
        crate::checks::agrees(r, operation_refusal(views(caps@), op@)),
{
    match find_capability_index(caps, &op.capability) {
        None => {
            let mut m = owned("operation ");
            let id = debug_string(op.id.as_str());
            append(&mut m, id.as_str());
            append(&mut m, " requires unreported capability ");
            let c = debug_string(op.capability.as_str());
            append(&mut m, c.as_str());
            Err(m)
        },
        Some(i) => {
            let cap = &caps[i];
            proof {
                assert(views(caps@)[i as int] == caps@[i as int]@);
            }
            if cap.state == CapabilityState::Available || (op.risk == OperationRisk::ReadOnly
                && cap.state == CapabilityState::ReadOnly) {
                Ok(())
            } else {
                let mut m = owned("operation ");
                let id = debug_string(op.id.as_str());
                append(&mut m, id.as_str());
                append(&mut m, " requires capability ");
                let c = debug_string(op.capability.as_str());
                append(&mut m, c.as_str());
                append(&mut m, ": ");
                match &cap.reason {
                    Some(r) => append(&mut m, r.as_str()),
                    None => append(&mut m, "capability is not available for live execution"),
                }
                Err(m)
            }
        },
    }
}

/// Reject a live configuration before any mutation when a required
/// capability is absent.
pub fn require_plan_capabilities(caps: &Vec<Capability>, config: &NetplanConfig) -> (r: Result<
    (),
    PlatformError,
>)
    ensures
        match plan_refusal(views(caps@), *config) {
            None => r is Ok,
            Some(m) => r matches Err(e) && e.kind == PlatformErrorKind::Unsupported && e.message@
                == m && !e.rolled_back,
        },
{
    let ops = build_plan(config);
    let ghost f = |i: int| operation_refusal(views(caps@), plan_of(*config)[i]);
    let n = ops.len();
    for i in 0..n
        invariant
            n == ops@.len(),
            views(ops@) == plan_of(*config),
            f == (|i: int| operation_refusal(views(caps@), plan_of(*config)[i])),
            forall|j: int| 0 <= j < i ==> (#[trigger] f(j)) is None,
    {
        proof {
            assert(views(ops@)[i as int] == ops@[i as int]@);
        }
        if let Err(m) = check_operation(caps, &ops[i]) {
            proof {
                crate::checks::lemma_first_problem_at(0, i as int, n as int, f);
            }
            return Err(PlatformError::unsupported(m));
        }
    }
    proof {
        crate::checks::lemma_first_problem_none(0, n as int, f);
    }
    Ok(())
}


impl PortablePlatform {
    /// Adapter inventory: the portable backend sees no adapters.
    pub fn adapters(&self) -> (r: Result<Vec<AdapterInfo>, Error>)
        ensures
            r matches Ok(v) && v@.len() == 0,
    {
        Ok(Vec::new())
    }

    /// Native Wi-Fi status is unavailable off Windows.
    pub fn wifi_status(&self, if_index: Option<u32>) -> (r: Result<Vec<WifiInterfaceStatus>, PlatformError>)
        ensures
            r matches Err(e) && e.kind == PlatformErrorKind::Unsupported && e.message@
                == "native Wi-Fi status is unavailable on this platform"@ && !e.rolled_back,
    {
        Err(PlatformError::unsupported(owned("native Wi-Fi status is unavailable on this platform")))
    }

    /// Native Wi-Fi scanning is unavailable off Windows.
    pub fn wifi_scan(&self, if_index: Option<u32>, refresh: bool, timeout_ms: u32) -> (r: Result<
        (bool, Vec<WifiNetwork>),
        PlatformError,
    >)
        ensures
            r matches Err(e) && e.kind == PlatformErrorKind::Unsupported && e.message@
                == "native Wi-Fi scanning is unavailable on this platform"@ && !e.rolled_back,
    {
        Err(PlatformError::unsupported(owned("native Wi-Fi scanning is unavailable on this platform")))
    }

    /// Refuses a live configuration before any mutation when a capability it
    /// needs is not available here.
    pub fn preflight(&self, config: &NetplanConfig) -> (r: Result<(), PlatformError>)
        ensures
            match plan_refusal(portable_capabilities(), *config) {
                None => r is Ok,
                Some(m) => r matches Err(e) && e.kind == PlatformErrorKind::Unsupported && e.message@
                    == m && !e.rolled_back,
            },
    {
        let caps = self.capabilities();
        require_plan_capabilities(&caps, config)
    }

    /// Live apply is refused off Windows.
    pub fn apply(&self, config: &NetplanConfig) -> (r: Result<ApplyReport, PlatformError>)
        ensures
            r matches Err(e) && e.kind == PlatformErrorKind::Unsupported && e.message@
                == "live apply is available only on Windows"@ && !e.rolled_back,
    {
        Err(PlatformError::unsupported(owned("live apply is available only on Windows")))
    }
}

} // verus!
