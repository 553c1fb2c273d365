//! Verified core of PE Netplan: configuration model and validation, deterministic
//! planning, the `PNET` frame codec, and the decision logic of the daemon and CLI.

use vstd::prelude::*;

pub mod checks;
pub mod cli;
pub mod client;
pub mod codec;
pub mod config;
pub mod config_rules;
pub mod daemon;
pub mod error;
pub mod inventory;
pub mod ipv4;
pub mod live;
pub mod matcher;
pub mod model;
pub mod net;
pub mod oserror;
pub mod netsh;
pub mod output;
pub mod plan;
pub mod platform;
pub mod protocol;
pub mod render;
pub mod resolve;
pub mod restore;
pub mod rollback;
pub mod rpc;
pub mod scan;
pub mod scm;
pub mod smb;
pub mod text;
pub mod transaction;
pub mod validate;
pub mod wifi;
pub mod winargs;
pub mod wire;

pub use config::{ConfigFormat, NetplanConfig};
pub use error::Error;
pub use model::{
    AdapterInfo, Capability, CapabilityState, IpAddressInfo, WifiInterfaceStatus, WifiNetwork,
};
pub use plan::{build_plan, Operation, OperationRisk};

verus! {

/// Version of the `PNET` frame protocol supported by this crate.
pub const PROTOCOL_VERSION: u32 = 1;

/// Stable Windows Service Control Manager name for `netpland`.
pub const DAEMON_SERVICE_NAME: &'static str = "PENetpland";

/// Human-readable Windows service display name for `netpland`.
pub const DAEMON_SERVICE_DISPLAY_NAME: &'static str = "PE Netplan Daemon";

/// Default Windows named pipe of the daemon.
pub const DEFAULT_WINDOWS_ENDPOINT: &'static str = "\\\\.\\pipe\\pe-netplan-netpland-v1";

/// Default Unix-domain socket used for development and tests.
pub const DEFAULT_UNIX_ENDPOINT: &'static str = "/tmp/pe-netplan-netpland-v1.sock";

} // verus!
