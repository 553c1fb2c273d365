//! Configuration model and its semantic validation.
//!
//! Decoding YAML or JSON into these types happens outside the library; everything
//! the decoded document must satisfy is checked here by [`validate`].

use vstd::prelude::*;

use crate::text::{append, debug_string, debug_text, owned};

verus! {

/// Configuration document encoding.
#[derive(Clone, Copy, Debug, PartialEq, Eq, Structural)]
pub enum ConfigFormat {
    /// Infer JSON from the first non-whitespace character, otherwise parse YAML.
    Auto,
    /// YAML document.
    Yaml,
    /// JSON document.
    Json,
}

/// An IPv4 address with a CIDR prefix length of at most 32.
#[derive(Clone, Copy, Debug, PartialEq, Eq, Structural)]
pub struct Ipv4Network {
    addr: u32,
    prefix_len: u8,
}

impl Ipv4Network {
    #[verifier::type_invariant]
    spec fn wf(self) -> bool {
        self.prefix_len <= 32
    }

    /// The address, as the big-endian integer of its four octets.
    pub closed spec fn spec_addr(self) -> u32 {
        self.addr
    }

    /// The prefix length.
    pub closed spec fn spec_prefix_len(self) -> u8 {
        self.prefix_len
    }

    /// Builds a network; `None` when the prefix length exceeds 32.
    pub fn new(addr: u32, prefix_len: u8) -> (r: Option<Self>)
        ensures
            r is Some <==> prefix_len <= 32,
            r matches Some(n) ==> n.spec_addr() == addr && n.spec_prefix_len() == prefix_len,
    {
        if prefix_len <= 32 {
            Some(Ipv4Network { addr, prefix_len })
        } else {
            None
        }
    }

    /// The address.
    pub fn addr(&self) -> (r: u32)
        ensures
            r == self.spec_addr(),
    {
        self.addr
    }

    /// The prefix length.
    pub fn prefix_len(&self) -> (r: u8)
        ensures
            r == self.spec_prefix_len(),
            r <= 32,
    {
        proof {
            use_type_invariant(self);
        }
        self.prefix_len
    }
}

/// An IPv4 or IPv6 address.
#[derive(Clone, Copy, Debug, PartialEq, Eq, Structural)]
pub enum IpAddress {
    /// IPv4 address as the big-endian integer of its octets.
    V4(u32),
    /// IPv6 address as the big-endian integer of its octets.
    V6(u128),
}

/// Top-level PE Netplan configuration.
#[derive(Clone, PartialEq, Eq)]
pub struct NetplanConfig {
    /// Schema version. The current version is `1`.
    pub version: u32,
    /// Interfaces that the daemon must refuse to mutate.
    pub protect: ProtectionConfig,
    /// Optional machine identity changes.
    pub identity: Option<IdentityConfig>,
    /// Desired network adapter states.
    pub adapters: Vec<AdapterConfig>,
    /// Desired wireless profiles.
    pub wifi: Vec<WifiProfile>,
    /// Explicit wireless discovery and connection operations.
    pub wifi_actions: Vec<WifiAction>,
    /// SMB server and client configuration.
    pub smb: SmbConfig,
    /// Desired Windows firewall state.
    pub firewall: Option<FirewallConfig>,
    /// Desired Windows service states.
    pub services: Vec<ServiceConfig>,
    /// Explicit driver installation and adapter restart operations.
    pub drivers: Vec<DriverOperation>,
    /// Explicit executable hooks. Shell command strings are not accepted.
    pub hooks: Vec<HookConfig>,
}

/// Selectors protected from live apply.
#[derive(Clone, Debug, PartialEq, Eq)]
pub struct ProtectionConfig {
    /// Management adapters that must remain unchanged.
    pub management_interfaces: Vec<InterfaceSelector>,
}

/// Machine identity settings.
#[derive(Clone, Debug, PartialEq, Eq)]
pub struct IdentityConfig {
    /// `NetBIOS` computer name.
    pub computer_name: Option<String>,
    /// Workgroup name.
    pub workgroup: Option<String>,
    /// Primary DNS suffix.
    pub dns_suffix: Option<String>,
}

/// Desired state for one adapter.
#[derive(Clone, Debug, PartialEq, Eq)]
pub struct AdapterConfig {
    /// Stable adapter matcher.
    pub selector: InterfaceSelector,
    /// Enable or disable the adapter.
    pub enabled: Option<bool>,
    /// Optional locally administered MAC address.
    pub mac_address: Option<String>,
    /// IPv4 configuration.
    pub ipv4: Option<Ipv4Config>,
}

/// Stable fields used to select an adapter.
#[derive(Clone, Debug, PartialEq, Eq)]
pub struct InterfaceSelector {
    /// Windows interface index.
    pub if_index: Option<u32>,
    /// Exact friendly connection name.
    pub name: Option<String>,
    /// Exact Windows adapter GUID.
    pub guid: Option<String>,
    /// Exact canonical MAC address.
    pub mac_address: Option<String>,
    /// Case-insensitive substring of the adapter description.
    pub description_contains: Option<String>,
}

/// Desired IPv4 mode.
#[derive(Clone, Debug, PartialEq, Eq)]
pub enum Ipv4Config {
    /// Obtain addresses and optionally DNS from DHCP.
    Dhcp {
        /// Whether DNS servers should also come from DHCP.
        dns_from_dhcp: bool,
    },
    /// Use explicit addresses, gateways, and name servers.
    Static {
        /// One or more IPv4 CIDR addresses.
        addresses: Vec<Ipv4Network>,
        /// Default gateways in preference order.
        gateways: Vec<u32>,
        /// DNS servers in preference order.
        dns: Vec<IpAddress>,
        /// WINS servers in preference order.
        wins: Vec<u32>,
    },
}

/// Wireless authentication mode.
#[derive(Clone, Copy, Debug, PartialEq, Eq, Structural)]
pub enum WifiAuthentication {
    /// Open network.
    Open,
    /// WPA2 personal network.
    Wpa2Personal,
    /// WPA3 personal network.
    Wpa3Personal,
}

/// Desired wireless profile.
#[derive(Clone, PartialEq, Eq)]
pub struct WifiProfile {
    /// Adapter matcher. It may be omitted only when exactly one WLAN interface is available.
    pub selector: Option<InterfaceSelector>,
    /// Stable profile name. Defaults to the SSID when omitted.
    pub name: Option<String>,
    /// SSID as displayed by Windows WLAN APIs.
    pub ssid: String,
    /// Authentication mode.
    pub authentication: WifiAuthentication,
    /// Pre-shared key reference for secured networks.
    pub psk: Option<SecretRef>,
    /// Connect automatically when the network is visible.
    pub auto_connect: bool,
    /// Treat this as a hidden SSID.
    pub hidden: bool,
}

/// An explicit wireless operation performed after profile installation.
#[derive(Clone, Debug, PartialEq, Eq)]
pub enum WifiAction {
    /// Request a native scan on one selected WLAN interface.
    Scan {
        /// Optional WLAN adapter matcher; required when multiple WLAN interfaces exist.
        selector: Option<InterfaceSelector>,
    },
    /// Connect using a profile declared in this document.
    Connect {
        /// Optional WLAN adapter matcher; required when multiple WLAN interfaces exist.
        selector: Option<InterfaceSelector>,
        /// Profile name, or the SSID when the profile has no explicit name.
        profile: String,
    },
    /// Disconnect one or all WLAN interfaces.
    Disconnect {
        /// Optional WLAN adapter matcher; required when multiple WLAN interfaces exist.
        selector: Option<InterfaceSelector>,
    },
}

/// SMB desired state.
#[derive(Clone, PartialEq, Eq)]
pub struct SmbConfig {
    /// Named local or remote credentials referenced by shares and mappings.
    pub accounts: Vec<SmbAccount>,
    /// Local shares to create.
    pub shares: Vec<SmbShare>,
    /// Remote shares to map.
    pub mappings: Vec<SmbMapping>,
}

/// Named SMB credential material.
#[derive(Clone, PartialEq, Eq)]
pub struct SmbAccount {
    /// Stable identifier used by share and mapping references.
    pub id: String,
    /// Whether this declaration creates a local user or only supplies remote credentials.
    pub kind: SmbAccountKind,
    /// Windows user name, optionally domain-qualified.
    pub username: String,
    /// Optional password used when creating or authenticating the account.
    pub password: Option<SecretRef>,
}

/// SMB account behavior.
#[derive(Clone, Copy, Debug, PartialEq, Eq, Structural)]
pub enum SmbAccountKind {
    /// Credentials used only for a remote SMB mapping.
    Credential,
    /// A local Windows user created when absent and usable in share ACLs.
    Local,
}

/// Local SMB share definition.
#[derive(Clone, Debug, PartialEq, Eq)]
pub struct SmbShare {
    /// Share name.
    pub name: String,
    /// Local path.
    pub path: String,
    /// Optional description.
    pub description: Option<String>,
    /// Deny writes when true.
    pub read_only: bool,
    /// SMB account identifiers granted access to this share.
    pub accounts: Vec<String>,
}

/// Remote SMB mapping definition.
#[derive(Clone, PartialEq, Eq)]
pub struct SmbMapping {
    /// UNC path such as `\\server\share`.
    pub remote: String,
    /// Optional drive letter such as `Z:`.
    pub local: Option<String>,
    /// Named account declared in `smb.accounts`.
    pub account: Option<String>,
    /// Optional user name.
    pub username: Option<String>,
    /// Optional password reference.
    pub password: Option<SecretRef>,
}

/// Desired firewall state for all profiles available in the image.
#[derive(Clone, Debug, PartialEq, Eq)]
pub struct FirewallConfig {
    /// Enable or disable the Windows firewall.
    pub enabled: bool,
}

/// Desired service state.
#[derive(Clone, Copy, Debug, PartialEq, Eq, Structural)]
pub enum ServiceState {
    /// The service must be running.
    Running,
    /// The service must be stopped.
    Stopped,
}

/// One shell-free Windows service operation.
#[derive(Clone, Debug, PartialEq, Eq)]
pub struct ServiceConfig {
    /// Stable service name, not its localized display name.
    pub name: String,
    /// Desired runtime state.
    pub state: ServiceState,
}

/// Restart behavior after driver installation.
#[derive(Clone, Copy, Debug, PartialEq, Eq, Structural)]
pub enum RestartPolicy {
    /// Never restart automatically.
    Never,
    /// Restart only when the native installer reports it is required.
    IfRequired,
    /// Restart the matching adapter after installation.
    Always,
}

/// Explicit driver installation and adapter restart operation.
#[derive(Clone, Debug, PartialEq, Eq)]
pub enum DriverOperation {
    /// Install or update a Plug and Play driver from an INF.
    Install {
        /// Absolute or image-relative INF path.
        inf_path: String,
        /// Optional Plug and Play hardware identifier.
        hardware_id: Option<String>,
        /// Permit replacement with the supplied driver.
        force: bool,
        /// Restart policy when installation requests it.
        restart: RestartPolicy,
    },
    /// Restart one selected network adapter.
    RestartAdapter {
        /// Adapter matcher.
        selector: InterfaceSelector,
    },
}

/// Hook execution stage.
#[derive(Clone, Copy, Debug, PartialEq, Eq, Structural)]
pub enum HookStage {
    /// Run before applying operations.
    BeforeApply,
    /// Run after successful application.
    AfterApply,
    /// Run after rollback.
    AfterRollback,
}

/// A shell-free process hook.
#[derive(Clone, Debug, PartialEq, Eq)]
pub struct HookConfig {
    /// Execution stage.
    pub stage: HookStage,
    /// Executable path or name. It is never passed through a shell.
    pub program: String,
    /// Individual process arguments.
    pub args: Vec<String>,
    /// Wait for the process to exit.
    pub wait: bool,
}

/// A secret supplied literally or through an environment variable.
#[derive(Clone, PartialEq, Eq)]
pub enum SecretRef {
    /// Read a value from the daemon environment.
    Env(String),
    /// Inline value. Intended for ephemeral PE configuration only.
    Literal(String),
}

/// The diagnostic rendering of a secret reference: literal values never appear in it.
pub open spec fn secret_debug_text(s: SecretRef) -> Seq<char> {
    match s {
        SecretRef::Env(name) => "Env("@ + debug_text(name@) + ")"@,
        SecretRef::Literal(_) => "Literal([REDACTED])"@,
    }
}

impl SecretRef {
    /// Diagnostic text for the reference, with literal values redacted.
    pub fn redacted_debug(&self) -> (r: String)
        ensures
            r@ == secret_debug_text(*self),
    {
        match self {
            SecretRef::Env(name) => {
                let mut r = owned("Env(");
                let quoted = debug_string(name.as_str());
                append(&mut r, quoted.as_str());
                append(&mut r, ")");
                r
            },
            SecretRef::Literal(_) => owned("Literal([REDACTED])"),
        }
    }
}


/// The diagnostic text of a literal secret is the same whatever the secret
/// is: no part of a literal value ever reaches it.
pub proof fn lemma_literal_secrets_are_redacted(a: String, b: String)
    ensures
        secret_debug_text(SecretRef::Literal(a)) == secret_debug_text(SecretRef::Literal(b)),
        secret_debug_text(SecretRef::Literal(a)) == "Literal([REDACTED])"@,
{
}

} // verus!
