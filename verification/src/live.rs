//! Decisions of the Windows live transaction: which changes an adapter, a
//! service, the firewall or a driver needs, what each change records for its
//! rollback, and the registry keys and tool arguments involved.

use vstd::prelude::*;

use crate::codec::views;
use crate::config::{AdapterConfig, RestartPolicy, ServiceState};
use crate::matcher::{guid_core, trim_braces};
use crate::netsh::{commands_view, firewall_args, firewall_profile, push_command};
use crate::platform::{PlatformError, PlatformErrorKind};
use crate::text::{
    append, debug_string, debug_text, dec, decimal, digit_char, eq_ignore_case, owned, push_char,
    chars_eq_ignore_case, str_eq_ignore_case,
};

verus! {

/// One change to an adapter, in the order the transaction makes them.
#[derive(Clone, Copy, Debug, PartialEq, Eq, Structural)]
pub enum AdapterStep {
    /// Enable the adapter; its rollback disables it again.
    Enable,
    /// Write the configured MAC address; `restart` when the adapter is enabled
    /// during the apply, so that the new address takes effect.
    SetMac { restart: bool },
    /// Apply the IPv4 configuration.
    Ipv4,
    /// Disable the adapter; its rollback enables it again.
    Disable,
}

/// The step when the condition holds, else nothing.
pub open spec fn step_if(c: bool, s: AdapterStep) -> Seq<AdapterStep> {
    if c {
        seq![s]
    } else {
        Seq::empty()
    }
}

/// The changes an adapter needs, given whether it is administratively enabled now.
pub open spec fn adapter_plan(a: AdapterConfig, admin_enabled: bool) -> Seq<AdapterStep> {
    step_if(a.enabled == Some(true) && !admin_enabled, AdapterStep::Enable) + step_if(
        a.mac_address is Some,
        AdapterStep::SetMac { restart: a.enabled == Some(true) || admin_enabled },
    ) + step_if(a.ipv4 is Some, AdapterStep::Ipv4) + step_if(
        a.enabled == Some(false) && admin_enabled,
        AdapterStep::Disable,
    )
}

/// The changes an adapter needs, in order.
pub fn adapter_steps(adapter: &AdapterConfig, admin_enabled: bool) -> (r: Vec<AdapterStep>)
    ensures
        r@ == adapter_plan(*adapter, admin_enabled),
{
    let enable = match adapter.enabled {
        Some(e) => e,
        None => false,
    };
    let disable = match adapter.enabled {
        Some(e) => !e,
        None => false,
    };
    let mut out: Vec<AdapterStep> = Vec::new();
    if enable && !admin_enabled {
        out.push(AdapterStep::Enable);
    }
    if adapter.mac_address.is_some() {
        out.push(AdapterStep::SetMac { restart: enable || admin_enabled });
    }
    if adapter.ipv4.is_some() {
        out.push(AdapterStep::Ipv4);
    }
    if disable && admin_enabled {
        out.push(AdapterStep::Disable);
    }
    proof {
        assert(out@ =~= adapter_plan(*adapter, admin_enabled));
    }
    out
}

/// Whether a name setting (computer name, workgroup, DNS suffix) changes:
/// names are compared ignoring ASCII case.
pub fn name_differs(previous: &str, desired: &str) -> (r: bool)
    ensures
        r == !eq_ignore_case(previous@, desired@),
{
    !str_eq_ignore_case(previous, desired)
}

/// The workgroup name read from the machine: a machine that is not in a
/// workgroup (it is domain joined) is refused, since rolling it back would
/// need credentials.
pub fn current_workgroup(in_workgroup: bool, name: Result<String, PlatformError>) -> (r: Result<
    String,
    PlatformError,
>)
    ensures
        in_workgroup ==> r == name,
        !in_workgroup ==> (r matches Err(e) && e.kind == PlatformErrorKind::InvalidConfig
            && e.message@
            == "refusing to change a domain-joined machine to a workgroup without rollback credentials"@
            && !e.rolled_back),
{
    if !in_workgroup {
        return Err(
            PlatformError::invalid_config(
                owned(
                    "refusing to change a domain-joined machine to a workgroup without rollback credentials",
                ),
            ),
        );
    }
    name
}

/// The state a service must be brought to, if it differs from whether it runs now.
pub fn service_change(was_running: bool, state: ServiceState) -> (r: Option<bool>)
    ensures
        r == if was_running != (state == ServiceState::Running) {
            Some(state == ServiceState::Running)
        } else {
            None::<bool>
        },
{
    let should_run = match state {
        ServiceState::Running => true,
        ServiceState::Stopped => false,
    };
    if was_running != should_run {
        Some(should_run)
    } else {
        None
    }
}

/// The service-control request that brings a service to the wanted state.
#[derive(Clone, Copy, Debug, PartialEq, Eq, Structural)]
pub enum ServiceControl {
    /// Start the service and wait until it runs.
    Start,
    /// Stop the service and wait until it has stopped.
    Stop,
}

/// `SERVICE_STOPPED`.
pub const SERVICE_STOPPED: u32 = 1;

/// `SERVICE_RUNNING`.
pub const SERVICE_RUNNING: u32 = 4;

/// Seconds to wait for a service to reach its state.
pub const SERVICE_WAIT_SECONDS: u64 = 30;

/// The request, if any, for a service in state `current` to run or not.
pub fn service_control(running: bool, current: u32) -> (r: Option<ServiceControl>)
    ensures
        r == if running && current != SERVICE_RUNNING {
            Some(ServiceControl::Start)
        } else if !running && current != SERVICE_STOPPED {
            Some(ServiceControl::Stop)
        } else {
            None::<ServiceControl>
        },
{
    if running && current != SERVICE_RUNNING {
        Some(ServiceControl::Start)
    } else if !running && current != SERVICE_STOPPED {
        Some(ServiceControl::Stop)
    } else {
        None
    }
}

/// The failure of a service that did not reach the wanted state in time.
pub fn service_wait_failure(desired: u32) -> (e: PlatformError)
    ensures
        e.kind == PlatformErrorKind::Internal,
        e.message@ == "service did not reach state "@ + dec(desired as nat) + " within "@ + dec(
            SERVICE_WAIT_SECONDS as nat,
        ) + " seconds"@,
        !e.rolled_back,
{
    let mut m = owned("service did not reach state ");
    let d = decimal(desired as u64);
    append(&mut m, d.as_str());
    append(&mut m, " within ");
    let s = decimal(SERVICE_WAIT_SECONDS);
    append(&mut m, s.as_str());
    append(&mut m, " seconds");
    PlatformError::internal(m)
}

/// Registry key of the firewall policy of one profile.
pub open spec fn firewall_key_text(profile: Seq<char>) -> Seq<char> {
    "SYSTEM\\CurrentControlSet\\Services\\SharedAccess\\Parameters\\FirewallPolicy\\"@ + profile
}

/// The registry key that holds a firewall profile's `EnableFirewall` value
/// (`DomainProfile`, `StandardProfile` or `PublicProfile`).
pub fn firewall_key(profile: &str) -> (r: String)
    ensures
        r@ == firewall_key_text(profile@),
{
    let mut k = owned("SYSTEM\\CurrentControlSet\\Services\\SharedAccess\\Parameters\\FirewallPolicy\\");
    append(&mut k, profile);
    k
}

/// Whether the firewall must change: some profile differs from the wanted state.
pub fn firewall_changes(domain: bool, private: bool, public: bool, enabled: bool) -> (r: bool)
    ensures
        r == !(domain == enabled && private == enabled && public == enabled),
{
    !(domain == enabled && private == enabled && public == enabled)
}

/// The `netsh` arguments that set every firewall profile.
pub fn firewall_apply(enabled: bool) -> (r: Vec<String>)
    ensures
        views(r@) == firewall_args("allprofiles"@, enabled),
{
    firewall_profile("allprofiles", enabled)
}

/// The `netsh` commands that put each firewall profile back as captured.
pub fn firewall_restore(domain: bool, private: bool, public: bool) -> (r: Vec<Vec<String>>)
    ensures
        commands_view(r@) == seq![
            firewall_args("domainprofile"@, domain),
            firewall_args("privateprofile"@, private),
            firewall_args("publicprofile"@, public),
        ],
{
    let mut out: Vec<Vec<String>> = Vec::new();
    proof {
        assert(commands_view(out@) =~= Seq::empty());
    }
    push_command(&mut out, firewall_profile("domainprofile", domain));
    push_command(&mut out, firewall_profile("privateprofile", private));
    push_command(&mut out, firewall_profile("publicprofile", public));
    proof {
        assert(commands_view(out@) =~= seq![
            firewall_args("domainprofile"@, domain),
            firewall_args("privateprofile"@, private),
            firewall_args("publicprofile"@, public),
        ]);
    }
    out
}

/// Registry key of the network adapter device class.
pub open spec fn class_text() -> Seq<char> {
    "SYSTEM\\CurrentControlSet\\Control\\Class\\{4D36E972-E325-11CE-BFC1-08002BE10318}"@
}

/// An index below 10000 as four digits with leading zeros.
pub open spec fn four_digits(index: nat) -> Seq<char> {
    seq![
        digit_char(index / 1000),
        digit_char((index / 100) % 10),
        digit_char((index / 10) % 10),
        digit_char(index % 10),
    ]
}

/// Number of adapter class subkeys searched for an adapter's GUID.
pub const CLASS_KEY_LIMIT: u32 = 10000;

fn digit_of(d: u32) -> (c: char)
    requires
        d < 10,
    ensures
        c == digit_char(d as nat),
{
    let b = (d + 48) as u8;
    b as char
}

/// The class subkey at an index (`...\\0007`).
pub fn class_key(index: u32) -> (r: String)
    requires
        index < CLASS_KEY_LIMIT,
    ensures
        r@ == class_text() + "\\"@ + four_digits(index as nat),
{
    let mut k = owned("SYSTEM\\CurrentControlSet\\Control\\Class\\{4D36E972-E325-11CE-BFC1-08002BE10318}");
    let ghost base = k@;
    push_char(&mut k, '\\');
    push_char(&mut k, digit_of(index / 1000));
    push_char(&mut k, digit_of((index / 100) % 10));
    push_char(&mut k, digit_of((index / 10) % 10));
    push_char(&mut k, digit_of(index % 10));
    proof {
        assert("\\"@ =~= seq!['\\']) by {
            reveal_strlit("\\");
        }
        assert(k@ =~= class_text() + "\\"@ + four_digits(index as nat));
    }
    k
}

/// Whether a class subkey's `NetCfgInstanceId` names the adapter: both GUIDs
/// compared without braces and ignoring ASCII case.
pub fn class_key_matches(instance_id: &Option<String>, guid: &str) -> (r: bool)
    ensures
        r == (instance_id matches Some(v) && eq_ignore_case(guid_core(v@), guid_core(guid@))),
{
    match instance_id {
        None => false,
        Some(v) => {
            let a = trim_braces(v.as_str());
            let b = trim_braces(guid);
            chars_eq_ignore_case(&a, &b)
        },
    }
}

/// The failure when no class subkey names the adapter.
pub fn class_key_missing(guid: &str) -> (e: PlatformError)
    ensures
        e.kind == PlatformErrorKind::NotFound,
        e.message@ == "adapter registry class key was not found for GUID "@ + debug_text(guid@),
        !e.rolled_back,
{
    let mut m = owned("adapter registry class key was not found for GUID ");
    let d = debug_string(guid);
    append(&mut m, d.as_str());
    PlatformError::not_found(m)
}

/// How a driver is installed: `pnputil` with the given arguments, or (when
/// `None`) forced through the device installer, which needs a hardware ID.
pub fn driver_install(inf_path: &str, hardware_id: &Option<String>, force: bool) -> (r: Result<
    Option<Vec<String>>,
    PlatformError,
>)
    ensures
        force && hardware_id is None ==> (r matches Err(e) && e.kind == PlatformErrorKind::InvalidConfig
            && e.message@ == "forced driver replacement requires a hardware_id"@ && !e.rolled_back),
        force && hardware_id is Some ==> r matches Ok(None),
        !force ==> (r matches Ok(Some(v)) && views(v@) == seq!["/add-driver"@, inf_path@, "/install"@]),
{
    if force {
        if hardware_id.is_none() {
            return Err(PlatformError::invalid_config(owned("forced driver replacement requires a hardware_id")));
        }
        return Ok(None);
    }
    let mut v: Vec<String> = Vec::new();
    v.push(owned("/add-driver"));
    v.push(owned(inf_path));
    v.push(owned("/install"));
    proof {
        assert(views(v@) =~= seq!["/add-driver"@, inf_path@, "/install"@]);
    }
    Ok(Some(v))
}

/// Whether a driver installation restarts the device.
pub open spec fn restarts(restart: RestartPolicy, reboot_required: bool) -> bool {
    restart == RestartPolicy::Always || (restart == RestartPolicy::IfRequired && reboot_required)
}

/// The `pnputil` arguments that restart the device after an installation, if
/// the policy asks for it; a restart needs a hardware ID.
pub fn driver_restart(restart: RestartPolicy, reboot_required: bool, hardware_id: &Option<String>) -> (r: Result<
    Option<Vec<String>>,
    PlatformError,
>)
    ensures
        !restarts(restart, reboot_required) ==> r matches Ok(None),
        restarts(restart, reboot_required) && hardware_id is None ==> (r matches Err(e) && e.kind
            == PlatformErrorKind::InvalidConfig && e.message@
            == "driver restart requires a hardware_id"@ && !e.rolled_back),
        restarts(restart, reboot_required) && hardware_id is Some ==> (r matches Ok(Some(v))
            && views(v@) == seq!["/restart-device"@, "/deviceid"@, hardware_id->0@]),
{
    let should = match restart {
        RestartPolicy::Always => true,
        RestartPolicy::IfRequired => reboot_required,
        RestartPolicy::Never => false,
    };
    if !should {
        return Ok(None);
    }
    match hardware_id {
        None => Err(PlatformError::invalid_config(owned("driver restart requires a hardware_id"))),
        Some(h) => {
            let mut v: Vec<String> = Vec::new();
            v.push(owned("/restart-device"));
            v.push(owned("/deviceid"));
            v.push(owned(h.as_str()));
            proof {
                assert(views(v@) =~= seq!["/restart-device"@, "/deviceid"@, h@]);
            }
            Ok(Some(v))
        },
    }
}

/// The failure of a hook that ran to completion with an unsuccessful status.
pub fn hook_failure(program: &str, status: &str) -> (e: PlatformError)
    ensures
        e.kind == PlatformErrorKind::Internal,
        e.message@ == "hook "@ + debug_text(program@) + " exited with status "@ + status@,
        !e.rolled_back,
{
    let mut m = owned("hook ");
    let d = debug_string(program);
    append(&mut m, d.as_str());
    append(&mut m, " exited with status ");
    append(&mut m, status);
    PlatformError::internal(m)
}

} // verus!
