//! The status that the daemon reports to the Windows service control manager
//! as it starts, runs, is asked to stop, and stops.

use vstd::prelude::*;

use crate::live::{ServiceControl, SERVICE_RUNNING, SERVICE_STOPPED, SERVICE_WAIT_SECONDS};
use crate::text::{append, dec, decimal, owned};

verus! {

/// `SERVICE_START_PENDING`.
pub const SERVICE_START_PENDING: u32 = 2;

/// `SERVICE_STOP_PENDING`.
pub const SERVICE_STOP_PENDING: u32 = 3;

/// `SERVICE_ACCEPT_STOP`.
pub const SERVICE_ACCEPT_STOP: u32 = 1;

/// `SERVICE_CONTROL_STOP`.
pub const SERVICE_CONTROL_STOP: u32 = 1;

/// `SERVICE_WIN32_OWN_PROCESS`.
pub const SERVICE_WIN32_OWN_PROCESS: u32 = 16;

/// `NO_ERROR`.
pub const NO_ERROR: u32 = 0;

/// `ERROR_SERVICE_SPECIFIC_ERROR`.
pub const ERROR_SERVICE_SPECIFIC_ERROR: u32 = 1066;

/// Milliseconds that a pending state asks the service control manager to wait.
pub const PENDING_WAIT_HINT: u32 = 5000;

/// The fields of a `SERVICE_STATUS` report.
#[derive(Clone, Copy, Debug, PartialEq, Eq, Structural)]
pub struct ServiceStatus {
    /// `dwServiceType`.
    pub service_type: u32,
    /// `dwCurrentState`.
    pub state: u32,
    /// `dwControlsAccepted`.
    pub controls_accepted: u32,
    /// `dwWin32ExitCode`.
    pub exit_code: u32,
    /// `dwServiceSpecificExitCode`: 1 when the exit code reports a failure.
    pub service_specific_exit_code: u32,
    /// `dwCheckPoint`.
    pub checkpoint: u32,
    /// `dwWaitHint`.
    pub wait_hint: u32,
}

/// A status report of an own-process service.
pub open spec fn status_of(state: u32, controls: u32, exit_code: u32, checkpoint: u32, wait_hint: u32) -> ServiceStatus {
    ServiceStatus {
        service_type: SERVICE_WIN32_OWN_PROCESS,
        state,
        controls_accepted: controls,
        exit_code,
        service_specific_exit_code: if exit_code != NO_ERROR {
            1
        } else {
            0
        },
        checkpoint,
        wait_hint,
    }
}

/// The status report of an own-process service in a state.
pub fn service_status(state: u32, controls: u32, exit_code: u32, checkpoint: u32, wait_hint: u32) -> (r: ServiceStatus)
    ensures
        r == status_of(state, controls, exit_code, checkpoint, wait_hint),
{
    ServiceStatus {
        service_type: SERVICE_WIN32_OWN_PROCESS,
        state,
        controls_accepted: controls,
        exit_code,
        service_specific_exit_code: if exit_code != NO_ERROR {
            1
        } else {
            0
        },
        checkpoint,
        wait_hint,
    }
}

/// Reported while the daemon starts: pending, accepting no control.
pub fn start_pending() -> (r: ServiceStatus)
    ensures
        r == status_of(SERVICE_START_PENDING, 0, NO_ERROR, 1, PENDING_WAIT_HINT),
{
    service_status(SERVICE_START_PENDING, 0, NO_ERROR, 1, PENDING_WAIT_HINT)
}

/// Reported once the daemon serves: running, accepting a stop.
pub fn running() -> (r: ServiceStatus)
    ensures
        r == status_of(SERVICE_RUNNING, SERVICE_ACCEPT_STOP, NO_ERROR, 0, 0),
{
    service_status(SERVICE_RUNNING, SERVICE_ACCEPT_STOP, NO_ERROR, 0, 0)
}

/// Reported when a stop was requested.
pub fn stop_pending() -> (r: ServiceStatus)
    ensures
        r == status_of(SERVICE_STOP_PENDING, 0, NO_ERROR, 1, PENDING_WAIT_HINT),
{
    service_status(SERVICE_STOP_PENDING, 0, NO_ERROR, 1, PENDING_WAIT_HINT)
}

/// Reported when the daemon has stopped: a failed run exits with a
/// service-specific error.
pub fn stopped(succeeded: bool) -> (r: ServiceStatus)
    ensures
        r == status_of(
            SERVICE_STOPPED,
            0,
            if succeeded {
                NO_ERROR
            } else {
                ERROR_SERVICE_SPECIFIC_ERROR
            },
            0,
            0,
        ),
{
    let exit_code = if succeeded {
        NO_ERROR
    } else {
        ERROR_SERVICE_SPECIFIC_ERROR
    };
    service_status(SERVICE_STOPPED, 0, exit_code, 0, 0)
}

/// Whether a control request asks the daemon to shut down: only a stop does.
pub fn requests_shutdown(control: u32) -> (r: bool)
    ensures
        r == (control == SERVICE_CONTROL_STOP),
{
    control == SERVICE_CONTROL_STOP
}

/// One step of starting or stopping the installed service.
#[derive(Clone, Copy, Debug, PartialEq, Eq, Structural)]
pub enum ServiceStep {
    /// Wait until the service reports this state.
    WaitFor(u32),
    /// Send this request to the service control manager.
    Send(ServiceControl),
}

/// The steps that start the service from the state it reports: nothing when
/// it runs; wait for a pending start; after a pending stop, wait for it to
/// stop and start it again; otherwise start it and wait until it runs.
pub open spec fn start_plan(state: u32) -> Seq<ServiceStep> {
    if state == SERVICE_RUNNING {
        Seq::empty()
    } else if state == SERVICE_START_PENDING {
        seq![ServiceStep::WaitFor(SERVICE_RUNNING)]
    } else if state == SERVICE_STOP_PENDING {
        seq![
            ServiceStep::WaitFor(SERVICE_STOPPED),
            ServiceStep::Send(ServiceControl::Start),
            ServiceStep::WaitFor(SERVICE_RUNNING),
        ]
    } else {
        seq![ServiceStep::Send(ServiceControl::Start), ServiceStep::WaitFor(SERVICE_RUNNING)]
    }
}

/// The steps that stop the service from the state it reports: nothing when
/// it is stopped; wait for a pending stop; otherwise stop it and wait.
pub open spec fn stop_plan(state: u32) -> Seq<ServiceStep> {
    if state == SERVICE_STOPPED {
        Seq::empty()
    } else if state == SERVICE_STOP_PENDING {
        seq![ServiceStep::WaitFor(SERVICE_STOPPED)]
    } else {
        seq![ServiceStep::Send(ServiceControl::Stop), ServiceStep::WaitFor(SERVICE_STOPPED)]
    }
}

/// The steps that start the installed service.
pub fn start_steps(state: u32) -> (r: Vec<ServiceStep>)
    ensures
        r@ == start_plan(state),
{
    let mut v: Vec<ServiceStep> = Vec::new();
    if state == SERVICE_RUNNING {
    } else if state == SERVICE_START_PENDING {
        v.push(ServiceStep::WaitFor(SERVICE_RUNNING));
    } else {
        if state == SERVICE_STOP_PENDING {
            v.push(ServiceStep::WaitFor(SERVICE_STOPPED));
        }
        v.push(ServiceStep::Send(ServiceControl::Start));
        v.push(ServiceStep::WaitFor(SERVICE_RUNNING));
    }
    assert(v@ =~= start_plan(state));
    v
}

/// The steps that stop the installed service.
pub fn stop_steps(state: u32) -> (r: Vec<ServiceStep>)
    ensures
        r@ == stop_plan(state),
{
    let mut v: Vec<ServiceStep> = Vec::new();
    if state == SERVICE_STOPPED {
    } else if state == SERVICE_STOP_PENDING {
        v.push(ServiceStep::WaitFor(SERVICE_STOPPED));
    } else {
        v.push(ServiceStep::Send(ServiceControl::Stop));
        v.push(ServiceStep::WaitFor(SERVICE_STOPPED));
    }
    assert(v@ =~= stop_plan(state));
    v
}

/// `ERROR_SERVICE_ALREADY_RUNNING`.
pub const ERROR_SERVICE_ALREADY_RUNNING: u32 = 1056;

/// `ERROR_SERVICE_DOES_NOT_EXIST`.
pub const ERROR_SERVICE_DOES_NOT_EXIST: u32 = 1060;

/// `ERROR_SERVICE_NOT_ACTIVE`.
pub const ERROR_SERVICE_NOT_ACTIVE: u32 = 1062;

/// Whether a failed request still lets the wait go on: a start of a service
/// that already runs, or a stop of one that is not active.
pub fn control_failure_tolerated(control: ServiceControl, code: u32) -> (r: bool)
    ensures
        r == match control {
            ServiceControl::Start => code == ERROR_SERVICE_ALREADY_RUNNING,
            ServiceControl::Stop => code == ERROR_SERVICE_NOT_ACTIVE,
        },
{
    match control {
        ServiceControl::Start => code == ERROR_SERVICE_ALREADY_RUNNING,
        ServiceControl::Stop => code == ERROR_SERVICE_NOT_ACTIVE,
    }
}

/// The failure of a lifecycle command whose service did not reach a state in time.
pub fn lifecycle_wait_failure(desired: u32) -> (r: String)
    ensures
        r@ == "PE Netplan service did not reach state "@ + dec(desired as nat) + " within "@ + dec(
            SERVICE_WAIT_SECONDS as nat,
        ) + " seconds"@,
{
    let mut m = owned("PE Netplan service did not reach state ");
    let d = decimal(desired as u64);
    append(&mut m, d.as_str());
    append(&mut m, " within ");
    let s = decimal(SERVICE_WAIT_SECONDS);
    append(&mut m, s.as_str());
    append(&mut m, " seconds");
    m
}

/// Whether opening the service failed because it is not installed.
pub fn service_absent(code: u32) -> (r: bool)
    ensures
        r == (code == ERROR_SERVICE_DOES_NOT_EXIST),
{
    code == ERROR_SERVICE_DOES_NOT_EXIST
}

/// The failure of starting or stopping a service that is not installed.
pub fn service_missing() -> (r: String)
    ensures
        r@ == "PE Netplan service is not installed; run `netplan enable` first"@,
{
    owned("PE Netplan service is not installed; run `netplan enable` first")
}

/// The failure of a service-control call: access denied (code 5) after
/// elevation gets an actionable hint; any other failure quotes the error.
pub fn lifecycle_error(operation: &str, code: Option<u32>, detail: &str) -> (r: String)
    ensures
        code == Some(5u32) ==> r@ == operation@
            + " failed: access denied after UAC elevation; verify the account's Administrator rights and local policy"@,
        code != Some(5u32) ==> r@ == operation@ + " failed: "@ + detail@,
{
    let mut m = owned(operation);
    let denied = match code {
        Some(c) => c == 5,
        None => false,
    };
    if denied {
        append(
            &mut m,
            " failed: access denied after UAC elevation; verify the account's Administrator rights and local policy",
        );
    } else {
        append(&mut m, " failed: ");
        append(&mut m, detail);
    }
    m
}

} // verus!
