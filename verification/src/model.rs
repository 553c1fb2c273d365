//! Shared daemon response models.

use vstd::prelude::*;

use crate::codec::{get_items, lemma_get_items, put_items, read_items, views, write_items, Codec};
use crate::wire::{
    get_bool, get_opt_bool, get_opt_text, get_opt_u32, get_opt_u8, get_text, get_u32,
    get_u8, lemma_get_bool, lemma_get_opt_bool, lemma_get_opt_text, lemma_get_opt_u32,
    lemma_get_opt_u8, lemma_get_text, lemma_get_u32, lemma_get_u8, lemma_split, put_bool,
    put_opt_bool, put_opt_text, put_opt_u32, put_opt_u8, put_text, put_u32, put_u8, read_bool,
    read_opt_bool, read_opt_text, read_opt_u32, read_opt_u8, read_text, read_u32_at, read_u8,
    write_bool, write_opt_bool, write_opt_text, write_opt_u32, write_opt_u8, write_text, write_u32,
    write_u8,
};

verus! {

/// Availability level for a feature on the current image.
#[derive(Clone, Copy, Debug, PartialEq, Eq, Structural)]
pub enum CapabilityState {
    /// Required APIs or services are absent.
    Unavailable,
    /// Discovery is available but changes are disabled.
    ReadOnly,
    /// Planning is supported while live application is disabled.
    DryRun,
    /// Discovery and live application are supported.
    Available,
}

/// One platform capability reported by `netpland`.
#[derive(Clone, Debug, PartialEq, Eq)]
pub struct Capability {
    /// Stable capability identifier.
    pub name: String,
    /// Availability level.
    pub state: CapabilityState,
    /// Optional diagnostic when not fully available.
    pub reason: Option<String>,
}

/// IP address attached to an adapter.
#[derive(Clone, Debug, PartialEq, Eq)]
pub struct IpAddressInfo {
    /// Address without a prefix suffix.
    pub address: String,
    /// CIDR prefix length.
    pub prefix_length: u8,
}

/// Read-only network adapter information.
#[derive(Clone, Debug, PartialEq, Eq)]
pub struct AdapterInfo {
    /// Windows interface index.
    pub if_index: u32,
    /// Friendly connection name.
    pub name: String,
    /// Driver or device description.
    pub description: Option<String>,
    /// Windows adapter GUID when present.
    pub guid: Option<String>,
    /// Canonical MAC address.
    pub mac_address: Option<String>,
    /// Operational status.
    pub status: String,
    /// Whether this is a physical hardware adapter.
    pub hardware: bool,
    /// Assigned IPv4 addresses.
    pub ipv4: Vec<IpAddressInfo>,
    /// Assigned IPv6 addresses.
    pub ipv6: Vec<IpAddressInfo>,
}

/// Current connection state for one native Wi-Fi interface.
#[derive(Clone, Debug, PartialEq, Eq)]
pub struct WifiInterfaceStatus {
    /// Windows interface index.
    pub if_index: u32,
    /// Friendly interface name.
    pub name: String,
    /// Windows interface GUID when available.
    pub guid: Option<String>,
    /// Stable state such as `connected` or `disconnected`.
    pub state: String,
    /// Active WLAN profile name when connected.
    pub profile_name: Option<String>,
    /// Display form of the active SSID when connected.
    pub ssid: Option<String>,
    /// Exact active SSID bytes encoded as uppercase hexadecimal.
    pub ssid_hex: Option<String>,
    /// Native signal quality from 0 through 100.
    pub signal_quality: Option<u8>,
    /// Whether link-layer security is enabled.
    pub security_enabled: Option<bool>,
    /// Stable authentication algorithm name.
    pub authentication: Option<String>,
    /// Stable cipher algorithm name.
    pub cipher: Option<String>,
    /// Current receive rate in kilobits per second.
    pub rx_rate_kbps: Option<u32>,
    /// Current transmit rate in kilobits per second.
    pub tx_rate_kbps: Option<u32>,
}

/// One network returned by a native Wi-Fi scan.
#[derive(Clone, Debug, PartialEq, Eq)]
pub struct WifiNetwork {
    /// Interface index that observed this network.
    pub interface_if_index: u32,
    /// Friendly name of the observing interface.
    pub interface_name: String,
    /// Lossy UTF-8 display form of the SSID.
    pub ssid: String,
    /// Exact SSID bytes encoded as uppercase hexadecimal.
    pub ssid_hex: String,
    /// Matching saved profile name when one exists.
    pub profile_name: Option<String>,
    /// Native signal quality from 0 through 100.
    pub signal_quality: u8,
    /// Whether link-layer security is enabled.
    pub security_enabled: bool,
    /// Stable authentication algorithm name.
    pub authentication: String,
    /// Stable cipher algorithm name.
    pub cipher: String,
    /// Whether Windows considers the network connectable.
    pub connectable: bool,
    /// Native reason code when the network is not connectable.
    pub not_connectable_reason: Option<u32>,
    /// Whether this is the current connection.
    pub connected: bool,
    /// Number of BSS entries represented by this network.
    pub bss_count: u32,
}

// ---------------------------------------------------------------------------
// Views and byte encodings
// ---------------------------------------------------------------------------

impl View for CapabilityState {
    type V = CapabilityState;

    open spec fn view(&self) -> CapabilityState {
        *self
    }
}

/// Wire code of a capability state.
pub open spec fn capability_state_code(s: CapabilityState) -> u8 {
    match s {
        CapabilityState::Unavailable => 0,
        CapabilityState::ReadOnly => 1,
        CapabilityState::DryRun => 2,
        CapabilityState::Available => 3,
    }
}

/// Capability state of a wire code.
pub open spec fn capability_state_of(c: u8) -> Option<CapabilityState> {
    if c == 0 {
        Some(CapabilityState::Unavailable)
    } else if c == 1 {
        Some(CapabilityState::ReadOnly)
    } else if c == 2 {
        Some(CapabilityState::DryRun)
    } else if c == 3 {
        Some(CapabilityState::Available)
    } else {
        None
    }
}

pub fn capability_state_to_code(s: CapabilityState) -> (c: u8)
    ensures
        c == capability_state_code(s),
{
    match s {
        CapabilityState::Unavailable => 0,
        CapabilityState::ReadOnly => 1,
        CapabilityState::DryRun => 2,
        CapabilityState::Available => 3,
    }
}

pub fn capability_state_from_code(c: u8) -> (s: Option<CapabilityState>)
    ensures
        s == capability_state_of(c),
{
    if c == 0 {
        Some(CapabilityState::Unavailable)
    } else if c == 1 {
        Some(CapabilityState::ReadOnly)
    } else if c == 2 {
        Some(CapabilityState::DryRun)
    } else if c == 3 {
        Some(CapabilityState::Available)
    } else {
        None
    }
}

/// Mathematical view of a [`Capability`].
pub struct CapabilityView {
    pub name: Seq<char>,
    pub state: CapabilityState,
    pub reason: Option<Seq<char>>,
}

impl View for Capability {
    type V = CapabilityView;

    open spec fn view(&self) -> CapabilityView {
        CapabilityView { name: self.name@, state: self.state, reason: self.reason.deep_view() }
    }
}

impl Codec for Capability {
    open spec fn encoding(v: CapabilityView) -> Seq<u8> {
        put_text(v.name) + put_u8(capability_state_code(v.state)) + put_opt_text(v.reason)
    }

    open spec fn decoding(b: Seq<u8>, p: int) -> Option<(CapabilityView, int)> {
        match get_text(b, p) {
            Some((name, p1)) => match get_u8(b, p1) {
                Some((c, p2)) => match capability_state_of(c) {
                    Some(state) => match get_opt_text(b, p2) {
                        Some((reason, p3)) => Some((CapabilityView { name, state, reason }, p3)),
                        None => None,
                    },
                    None => None,
                },
                None => None,
            },
            None => None,
        }
    }

    fn write(&self, out: &mut Vec<u8>) {
        write_text(out, self.name.as_str());
        write_u8(out, capability_state_to_code(self.state));
        write_opt_text(out, &self.reason);
        assert(out@ =~= old(out)@ + Self::encoding(self@));
    }

    fn read(b: &[u8], p: usize) -> (r: Option<(Self, usize)>) {
        let (name, p1) = read_text(b, p)?;
        let (c, p2) = read_u8(b, p1)?;
        let state = capability_state_from_code(c)?;
        let (reason, p3) = read_opt_text(b, p2)?;
        Some((Capability { name, state, reason }, p3))
    }

    proof fn lemma_reads_back(b: Seq<u8>, p: int, v: CapabilityView) {
        let a = put_text(v.name);
        let c = put_u8(capability_state_code(v.state));
        let d = put_opt_text(v.reason);
        lemma_split(b, p, a + c, d);
        lemma_split(b, p, a, c);
        lemma_get_text(b, p, v.name);
        lemma_get_u8(b, p + a.len(), capability_state_code(v.state));
        lemma_get_opt_text(b, p + a.len() + c.len(), v.reason);
    }

    proof fn lemma_nonempty(v: CapabilityView) {
    }
}

/// Mathematical view of an [`IpAddressInfo`].
pub struct IpAddressView {
    pub address: Seq<char>,
    pub prefix_length: u8,
}

impl View for IpAddressInfo {
    type V = IpAddressView;

    open spec fn view(&self) -> IpAddressView {
        IpAddressView { address: self.address@, prefix_length: self.prefix_length }
    }
}

impl Codec for IpAddressInfo {
    open spec fn encoding(v: IpAddressView) -> Seq<u8> {
        put_text(v.address) + put_u8(v.prefix_length)
    }

    open spec fn decoding(b: Seq<u8>, p: int) -> Option<(IpAddressView, int)> {
        match get_text(b, p) {
            Some((address, p1)) => match get_u8(b, p1) {
                Some((prefix_length, p2)) => Some((IpAddressView { address, prefix_length }, p2)),
                None => None,
            },
            None => None,
        }
    }

    fn write(&self, out: &mut Vec<u8>) {
        write_text(out, self.address.as_str());
        write_u8(out, self.prefix_length);
        assert(out@ =~= old(out)@ + Self::encoding(self@));
    }

    fn read(b: &[u8], p: usize) -> (r: Option<(Self, usize)>) {
        let (address, p1) = read_text(b, p)?;
        let (prefix_length, p2) = read_u8(b, p1)?;
        Some((IpAddressInfo { address, prefix_length }, p2))
    }

    proof fn lemma_reads_back(b: Seq<u8>, p: int, v: IpAddressView) {
        let a = put_text(v.address);
        lemma_split(b, p, a, put_u8(v.prefix_length));
        lemma_get_text(b, p, v.address);
        lemma_get_u8(b, p + a.len(), v.prefix_length);
    }

    proof fn lemma_nonempty(v: IpAddressView) {
    }
}


/// Mathematical view of an [`AdapterInfo`].
pub struct AdapterView {
    pub if_index: u32,
    pub name: Seq<char>,
    pub description: Option<Seq<char>>,
    pub guid: Option<Seq<char>>,
    pub mac_address: Option<Seq<char>>,
    pub status: Seq<char>,
    pub hardware: bool,
    pub ipv4: Seq<IpAddressView>,
    pub ipv6: Seq<IpAddressView>,
}

impl View for AdapterInfo {
    type V = AdapterView;

    open spec fn view(&self) -> AdapterView {
        AdapterView { if_index: self.if_index, name: self.name@, description: self.description.deep_view(), guid: self.guid.deep_view(), mac_address: self.mac_address.deep_view(), status: self.status@, hardware: self.hardware, ipv4: views(self.ipv4@), ipv6: views(self.ipv6@) }
    }
}

impl Codec for AdapterInfo {
    open spec fn encoding(v: AdapterView) -> Seq<u8> {
        put_u32(v.if_index) + put_text(v.name) + put_opt_text(v.description) + put_opt_text(v.guid) + put_opt_text(v.mac_address) + put_text(v.status) + put_bool(v.hardware) + put_items::<IpAddressInfo>(v.ipv4) + put_items::<IpAddressInfo>(v.ipv6)
    }

    open spec fn decoding(b: Seq<u8>, p: int) -> Option<(AdapterView, int)> {
        match get_u32(b, p) {
            Some((if_index, p1)) => {
                match get_text(b, p1) {
                    Some((name, p2)) => {
                        match get_opt_text(b, p2) {
                            Some((description, p3)) => {
                                match get_opt_text(b, p3) {
                                    Some((guid, p4)) => {
                                        match get_opt_text(b, p4) {
                                            Some((mac_address, p5)) => {
                                                match get_text(b, p5) {
                                                    Some((status, p6)) => {
                                                        match get_bool(b, p6) {
                                                            Some((hardware, p7)) => {
                                                                match get_items::<IpAddressInfo>(b, p7) {
                                                                    Some((ipv4, p8)) => {
                                                                        match get_items::<IpAddressInfo>(b, p8) {
                                                                            Some((ipv6, p9)) => {
                                                                                Some((AdapterView { if_index, name, description, guid, mac_address, status, hardware, ipv4, ipv6 }, p9))
                                                                            },
                                                                            None => None,
                                                                        }
                                                                    },
                                                                    None => None,
                                                                }
                                                            },
                                                            None => None,
                                                        }
                                                    },
                                                    None => None,
                                                }
                                            },
                                            None => None,
                                        }
                                    },
                                    None => None,
                                }
                            },
                            None => None,
                        }
                    },
                    None => None,
                }
            },
            None => None,
        }
    }

    fn write(&self, out: &mut Vec<u8>) {
        let mut t: Vec<u8> = Vec::new();
        write_u32(&mut t, self.if_index);
        assert(t@ =~= put_u32(self.if_index));
        write_text(&mut t, self.name.as_str());
        write_opt_text(&mut t, &self.description);
        write_opt_text(&mut t, &self.guid);
        write_opt_text(&mut t, &self.mac_address);
        write_text(&mut t, self.status.as_str());
        write_bool(&mut t, self.hardware);
        write_items(&mut t, &self.ipv4);
        write_items(&mut t, &self.ipv6);
        out.append(&mut t);
    }

    fn read(b: &[u8], p: usize) -> (r: Option<(Self, usize)>) {
        let (if_index, p1) = read_u32_at(b, p)?;
        let (name, p2) = read_text(b, p1)?;
        let (description, p3) = read_opt_text(b, p2)?;
        let (guid, p4) = read_opt_text(b, p3)?;
        let (mac_address, p5) = read_opt_text(b, p4)?;
        let (status, p6) = read_text(b, p5)?;
        let (hardware, p7) = read_bool(b, p6)?;
        let (ipv4, p8) = read_items::<IpAddressInfo>(b, p7)?;
        let (ipv6, p9) = read_items::<IpAddressInfo>(b, p8)?;
        Some((AdapterInfo { if_index, name, description, guid, mac_address, status, hardware, ipv4, ipv6 }, p9))
    }

    proof fn lemma_reads_back(b: Seq<u8>, p: int, v: AdapterView) {
        let a0 = put_u32(v.if_index);
        let a1 = put_text(v.name);
        let a2 = put_opt_text(v.description);
        let a3 = put_opt_text(v.guid);
        let a4 = put_opt_text(v.mac_address);
        let a5 = put_text(v.status);
        let a6 = put_bool(v.hardware);
        let a7 = put_items::<IpAddressInfo>(v.ipv4);
        let a8 = put_items::<IpAddressInfo>(v.ipv6);
        lemma_split(b, p, a0 + a1 + a2 + a3 + a4 + a5 + a6 + a7, a8);
        lemma_split(b, p, a0 + a1 + a2 + a3 + a4 + a5 + a6, a7);
        lemma_split(b, p, a0 + a1 + a2 + a3 + a4 + a5, a6);
        lemma_split(b, p, a0 + a1 + a2 + a3 + a4, a5);
        lemma_split(b, p, a0 + a1 + a2 + a3, a4);
        lemma_split(b, p, a0 + a1 + a2, a3);
        lemma_split(b, p, a0 + a1, a2);
        lemma_split(b, p, a0, a1);
        lemma_get_u32(b, p, v.if_index);
        lemma_get_text(b, p + (a0).len(), v.name);
        lemma_get_opt_text(b, p + (a0 + a1).len(), v.description);
        lemma_get_opt_text(b, p + (a0 + a1 + a2).len(), v.guid);
        lemma_get_opt_text(b, p + (a0 + a1 + a2 + a3).len(), v.mac_address);
        lemma_get_text(b, p + (a0 + a1 + a2 + a3 + a4).len(), v.status);
        lemma_get_bool(b, p + (a0 + a1 + a2 + a3 + a4 + a5).len(), v.hardware);
        lemma_get_items::<IpAddressInfo>(b, p + (a0 + a1 + a2 + a3 + a4 + a5 + a6).len(), v.ipv4);
        lemma_get_items::<IpAddressInfo>(b, p + (a0 + a1 + a2 + a3 + a4 + a5 + a6 + a7).len(), v.ipv6);
    }

    proof fn lemma_nonempty(v: AdapterView) {
    }
}

/// Mathematical view of a [`WifiInterfaceStatus`].
pub struct WifiInterfaceView {
    pub if_index: u32,
    pub name: Seq<char>,
    pub guid: Option<Seq<char>>,
    pub state: Seq<char>,
    pub profile_name: Option<Seq<char>>,
    pub ssid: Option<Seq<char>>,
    pub ssid_hex: Option<Seq<char>>,
    pub signal_quality: Option<u8>,
    pub security_enabled: Option<bool>,
    pub authentication: Option<Seq<char>>,
    pub cipher: Option<Seq<char>>,
    pub rx_rate_kbps: Option<u32>,
    pub tx_rate_kbps: Option<u32>,
}

impl View for WifiInterfaceStatus {
    type V = WifiInterfaceView;

    open spec fn view(&self) -> WifiInterfaceView {
        WifiInterfaceView { if_index: self.if_index, name: self.name@, guid: self.guid.deep_view(), state: self.state@, profile_name: self.profile_name.deep_view(), ssid: self.ssid.deep_view(), ssid_hex: self.ssid_hex.deep_view(), signal_quality: self.signal_quality, security_enabled: self.security_enabled, authentication: self.authentication.deep_view(), cipher: self.cipher.deep_view(), rx_rate_kbps: self.rx_rate_kbps, tx_rate_kbps: self.tx_rate_kbps }
    }
}

impl Codec for WifiInterfaceStatus {
    open spec fn encoding(v: WifiInterfaceView) -> Seq<u8> {
        put_u32(v.if_index) + put_text(v.name) + put_opt_text(v.guid) + put_text(v.state) + put_opt_text(v.profile_name) + put_opt_text(v.ssid) + put_opt_text(v.ssid_hex) + put_opt_u8(v.signal_quality) + put_opt_bool(v.security_enabled) + put_opt_text(v.authentication) + put_opt_text(v.cipher) + put_opt_u32(v.rx_rate_kbps) + put_opt_u32(v.tx_rate_kbps)
    }

    open spec fn decoding(b: Seq<u8>, p: int) -> Option<(WifiInterfaceView, int)> {
        match get_u32(b, p) {
            Some((if_index, p1)) => {
                match get_text(b, p1) {
                    Some((name, p2)) => {
                        match get_opt_text(b, p2) {
                            Some((guid, p3)) => {
                                match get_text(b, p3) {
                                    Some((state, p4)) => {
                                        match get_opt_text(b, p4) {
                                            Some((profile_name, p5)) => {
                                                match get_opt_text(b, p5) {
                                                    Some((ssid, p6)) => {
                                                        match get_opt_text(b, p6) {
                                                            Some((ssid_hex, p7)) => {
                                                                match get_opt_u8(b, p7) {
                                                                    Some((signal_quality, p8)) => {
                                                                        match get_opt_bool(b, p8) {
                                                                            Some((security_enabled, p9)) => {
                                                                                match get_opt_text(b, p9) {
                                                                                    Some((authentication, p10)) => {
                                                                                        match get_opt_text(b, p10) {
                                                                                            Some((cipher, p11)) => {
                                                                                                match get_opt_u32(b, p11) {
                                                                                                    Some((rx_rate_kbps, p12)) => {
                                                                                                        match get_opt_u32(b, p12) {
                                                                                                            Some((tx_rate_kbps, p13)) => {
                                                                                                                Some((WifiInterfaceView { if_index, name, guid, state, profile_name, ssid, ssid_hex, signal_quality, security_enabled, authentication, cipher, rx_rate_kbps, tx_rate_kbps }, p13))
                                                                                                            },
                                                                                                            None => None,
                                                                                                        }
                                                                                                    },
                                                                                                    None => None,
                                                                                                }
                                                                                            },
                                                                                            None => None,
                                                                                        }
                                                                                    },
                                                                                    None => None,
                                                                                }
                                                                            },
                                                                            None => None,
                                                                        }
                                                                    },
                                                                    None => None,
                                                                }
                                                            },
                                                            None => None,
                                                        }
                                                    },
                                                    None => None,
                                                }
                                            },
                                            None => None,
                                        }
                                    },
                                    None => None,
                                }
                            },
                            None => None,
                        }
                    },
                    None => None,
                }
            },
            None => None,
        }
    }

    fn write(&self, out: &mut Vec<u8>) {
        let mut t: Vec<u8> = Vec::new();
        write_u32(&mut t, self.if_index);
        assert(t@ =~= put_u32(self.if_index));
        write_text(&mut t, self.name.as_str());
        write_opt_text(&mut t, &self.guid);
        write_text(&mut t, self.state.as_str());
        write_opt_text(&mut t, &self.profile_name);
        write_opt_text(&mut t, &self.ssid);
        write_opt_text(&mut t, &self.ssid_hex);
        write_opt_u8(&mut t, self.signal_quality);
        write_opt_bool(&mut t, self.security_enabled);
        write_opt_text(&mut t, &self.authentication);
        write_opt_text(&mut t, &self.cipher);
        write_opt_u32(&mut t, self.rx_rate_kbps);
        write_opt_u32(&mut t, self.tx_rate_kbps);
        out.append(&mut t);
    }

    fn read(b: &[u8], p: usize) -> (r: Option<(Self, usize)>) {
        let (if_index, p1) = read_u32_at(b, p)?;
        let (name, p2) = read_text(b, p1)?;
        let (guid, p3) = read_opt_text(b, p2)?;
        let (state, p4) = read_text(b, p3)?;
        let (profile_name, p5) = read_opt_text(b, p4)?;
        let (ssid, p6) = read_opt_text(b, p5)?;
        let (ssid_hex, p7) = read_opt_text(b, p6)?;
        let (signal_quality, p8) = read_opt_u8(b, p7)?;
        let (security_enabled, p9) = read_opt_bool(b, p8)?;
        let (authentication, p10) = read_opt_text(b, p9)?;
        let (cipher, p11) = read_opt_text(b, p10)?;
        let (rx_rate_kbps, p12) = read_opt_u32(b, p11)?;
        let (tx_rate_kbps, p13) = read_opt_u32(b, p12)?;
        Some((WifiInterfaceStatus { if_index, name, guid, state, profile_name, ssid, ssid_hex, signal_quality, security_enabled, authentication, cipher, rx_rate_kbps, tx_rate_kbps }, p13))
    }

    proof fn lemma_reads_back(b: Seq<u8>, p: int, v: WifiInterfaceView) {
        let a0 = put_u32(v.if_index);
        let a1 = put_text(v.name);
        let a2 = put_opt_text(v.guid);
        let a3 = put_text(v.state);
        let a4 = put_opt_text(v.profile_name);
        let a5 = put_opt_text(v.ssid);
        let a6 = put_opt_text(v.ssid_hex);
        let a7 = put_opt_u8(v.signal_quality);
        let a8 = put_opt_bool(v.security_enabled);
        let a9 = put_opt_text(v.authentication);
        let a10 = put_opt_text(v.cipher);
        let a11 = put_opt_u32(v.rx_rate_kbps);
        let a12 = put_opt_u32(v.tx_rate_kbps);
        lemma_split(b, p, a0 + a1 + a2 + a3 + a4 + a5 + a6 + a7 + a8 + a9 + a10 + a11, a12);
        lemma_split(b, p, a0 + a1 + a2 + a3 + a4 + a5 + a6 + a7 + a8 + a9 + a10, a11);
        lemma_split(b, p, a0 + a1 + a2 + a3 + a4 + a5 + a6 + a7 + a8 + a9, a10);
        lemma_split(b, p, a0 + a1 + a2 + a3 + a4 + a5 + a6 + a7 + a8, a9);
        lemma_split(b, p, a0 + a1 + a2 + a3 + a4 + a5 + a6 + a7, a8);
        lemma_split(b, p, a0 + a1 + a2 + a3 + a4 + a5 + a6, a7);
        lemma_split(b, p, a0 + a1 + a2 + a3 + a4 + a5, a6);
        lemma_split(b, p, a0 + a1 + a2 + a3 + a4, a5);
        lemma_split(b, p, a0 + a1 + a2 + a3, a4);
        lemma_split(b, p, a0 + a1 + a2, a3);
        lemma_split(b, p, a0 + a1, a2);
        lemma_split(b, p, a0, a1);
        lemma_get_u32(b, p, v.if_index);
        lemma_get_text(b, p + (a0).len(), v.name);
        lemma_get_opt_text(b, p + (a0 + a1).len(), v.guid);
        lemma_get_text(b, p + (a0 + a1 + a2).len(), v.state);
        lemma_get_opt_text(b, p + (a0 + a1 + a2 + a3).len(), v.profile_name);
        lemma_get_opt_text(b, p + (a0 + a1 + a2 + a3 + a4).len(), v.ssid);
        lemma_get_opt_text(b, p + (a0 + a1 + a2 + a3 + a4 + a5).len(), v.ssid_hex);
        lemma_get_opt_u8(b, p + (a0 + a1 + a2 + a3 + a4 + a5 + a6).len(), v.signal_quality);
        lemma_get_opt_bool(b, p + (a0 + a1 + a2 + a3 + a4 + a5 + a6 + a7).len(), v.security_enabled);
        lemma_get_opt_text(b, p + (a0 + a1 + a2 + a3 + a4 + a5 + a6 + a7 + a8).len(), v.authentication);
        lemma_get_opt_text(b, p + (a0 + a1 + a2 + a3 + a4 + a5 + a6 + a7 + a8 + a9).len(), v.cipher);
        lemma_get_opt_u32(b, p + (a0 + a1 + a2 + a3 + a4 + a5 + a6 + a7 + a8 + a9 + a10).len(), v.rx_rate_kbps);
        lemma_get_opt_u32(b, p + (a0 + a1 + a2 + a3 + a4 + a5 + a6 + a7 + a8 + a9 + a10 + a11).len(), v.tx_rate_kbps);
    }

    proof fn lemma_nonempty(v: WifiInterfaceView) {
    }
}

/// Mathematical view of a [`WifiNetwork`].
pub struct WifiNetworkView {
    pub interface_if_index: u32,
    pub interface_name: Seq<char>,
    pub ssid: Seq<char>,
    pub ssid_hex: Seq<char>,
    pub profile_name: Option<Seq<char>>,
    pub signal_quality: u8,
    pub security_enabled: bool,
    pub authentication: Seq<char>,
    pub cipher: Seq<char>,
    pub connectable: bool,
    pub not_connectable_reason: Option<u32>,
    pub connected: bool,
    pub bss_count: u32,
}

impl View for WifiNetwork {
    type V = WifiNetworkView;

    open spec fn view(&self) -> WifiNetworkView {
        WifiNetworkView { interface_if_index: self.interface_if_index, interface_name: self.interface_name@, ssid: self.ssid@, ssid_hex: self.ssid_hex@, profile_name: self.profile_name.deep_view(), signal_quality: self.signal_quality, security_enabled: self.security_enabled, authentication: self.authentication@, cipher: self.cipher@, connectable: self.connectable, not_connectable_reason: self.not_connectable_reason, connected: self.connected, bss_count: self.bss_count }
    }
}

impl Codec for WifiNetwork {
    open spec fn encoding(v: WifiNetworkView) -> Seq<u8> {
        put_u32(v.interface_if_index) + put_text(v.interface_name) + put_text(v.ssid) + put_text(v.ssid_hex) + put_opt_text(v.profile_name) + put_u8(v.signal_quality) + put_bool(v.security_enabled) + put_text(v.authentication) + put_text(v.cipher) + put_bool(v.connectable) + put_opt_u32(v.not_connectable_reason) + put_bool(v.connected) + put_u32(v.bss_count)
    }

    open spec fn decoding(b: Seq<u8>, p: int) -> Option<(WifiNetworkView, int)> {
        match get_u32(b, p) {
            Some((interface_if_index, p1)) => {
                match get_text(b, p1) {
                    Some((interface_name, p2)) => {
                        match get_text(b, p2) {
                            Some((ssid, p3)) => {
                                match get_text(b, p3) {
                                    Some((ssid_hex, p4)) => {
                                        match get_opt_text(b, p4) {
                                            Some((profile_name, p5)) => {
                                                match get_u8(b, p5) {
                                                    Some((signal_quality, p6)) => {
                                                        match get_bool(b, p6) {
                                                            Some((security_enabled, p7)) => {
                                                                match get_text(b, p7) {
                                                                    Some((authentication, p8)) => {
                                                                        match get_text(b, p8) {
                                                                            Some((cipher, p9)) => {
                                                                                match get_bool(b, p9) {
                                                                                    Some((connectable, p10)) => {
                                                                                        match get_opt_u32(b, p10) {
                                                                                            Some((not_connectable_reason, p11)) => {
                                                                                                match get_bool(b, p11) {
                                                                                                    Some((connected, p12)) => {
                                                                                                        match get_u32(b, p12) {
                                                                                                            Some((bss_count, p13)) => {
                                                                                                                Some((WifiNetworkView { interface_if_index, interface_name, ssid, ssid_hex, profile_name, signal_quality, security_enabled, authentication, cipher, connectable, not_connectable_reason, connected, bss_count }, p13))
                                                                                                            },
                                                                                                            None => None,
                                                                                                        }
                                                                                                    },
                                                                                                    None => None,
                                                                                                }
                                                                                            },
                                                                                            None => None,
                                                                                        }
                                                                                    },
                                                                                    None => None,
                                                                                }
                                                                            },
                                                                            None => None,
                                                                        }
                                                                    },
                                                                    None => None,
                                                                }
                                                            },
                                                            None => None,
                                                        }
                                                    },
                                                    None => None,
                                                }
                                            },
                                            None => None,
                                        }
                                    },
                                    None => None,
                                }
                            },
                            None => None,
                        }
                    },
                    None => None,
                }
            },
            None => None,
        }
    }

    fn write(&self, out: &mut Vec<u8>) {
        let mut t: Vec<u8> = Vec::new();
        write_u32(&mut t, self.interface_if_index);
        assert(t@ =~= put_u32(self.interface_if_index));
        write_text(&mut t, self.interface_name.as_str());
        write_text(&mut t, self.ssid.as_str());
        write_text(&mut t, self.ssid_hex.as_str());
        write_opt_text(&mut t, &self.profile_name);
        write_u8(&mut t, self.signal_quality);
        write_bool(&mut t, self.security_enabled);
        write_text(&mut t, self.authentication.as_str());
        write_text(&mut t, self.cipher.as_str());
        write_bool(&mut t, self.connectable);
        write_opt_u32(&mut t, self.not_connectable_reason);
        write_bool(&mut t, self.connected);
        write_u32(&mut t, self.bss_count);
        out.append(&mut t);
    }

    fn read(b: &[u8], p: usize) -> (r: Option<(Self, usize)>) {
        let (interface_if_index, p1) = read_u32_at(b, p)?;
        let (interface_name, p2) = read_text(b, p1)?;
        let (ssid, p3) = read_text(b, p2)?;
        let (ssid_hex, p4) = read_text(b, p3)?;
        let (profile_name, p5) = read_opt_text(b, p4)?;
        let (signal_quality, p6) = read_u8(b, p5)?;
        let (security_enabled, p7) = read_bool(b, p6)?;
        let (authentication, p8) = read_text(b, p7)?;
        let (cipher, p9) = read_text(b, p8)?;
        let (connectable, p10) = read_bool(b, p9)?;
        let (not_connectable_reason, p11) = read_opt_u32(b, p10)?;
        let (connected, p12) = read_bool(b, p11)?;
        let (bss_count, p13) = read_u32_at(b, p12)?;
        Some((WifiNetwork { interface_if_index, interface_name, ssid, ssid_hex, profile_name, signal_quality, security_enabled, authentication, cipher, connectable, not_connectable_reason, connected, bss_count }, p13))
    }

    proof fn lemma_reads_back(b: Seq<u8>, p: int, v: WifiNetworkView) {
        let a0 = put_u32(v.interface_if_index);
        let a1 = put_text(v.interface_name);
        let a2 = put_text(v.ssid);
        let a3 = put_text(v.ssid_hex);
        let a4 = put_opt_text(v.profile_name);
        let a5 = put_u8(v.signal_quality);
        let a6 = put_bool(v.security_enabled);
        let a7 = put_text(v.authentication);
        let a8 = put_text(v.cipher);
        let a9 = put_bool(v.connectable);
        let a10 = put_opt_u32(v.not_connectable_reason);
        let a11 = put_bool(v.connected);
        let a12 = put_u32(v.bss_count);
        lemma_split(b, p, a0 + a1 + a2 + a3 + a4 + a5 + a6 + a7 + a8 + a9 + a10 + a11, a12);
        lemma_split(b, p, a0 + a1 + a2 + a3 + a4 + a5 + a6 + a7 + a8 + a9 + a10, a11);
        lemma_split(b, p, a0 + a1 + a2 + a3 + a4 + a5 + a6 + a7 + a8 + a9, a10);
        lemma_split(b, p, a0 + a1 + a2 + a3 + a4 + a5 + a6 + a7 + a8, a9);
        lemma_split(b, p, a0 + a1 + a2 + a3 + a4 + a5 + a6 + a7, a8);
        lemma_split(b, p, a0 + a1 + a2 + a3 + a4 + a5 + a6, a7);
        lemma_split(b, p, a0 + a1 + a2 + a3 + a4 + a5, a6);
        lemma_split(b, p, a0 + a1 + a2 + a3 + a4, a5);
        lemma_split(b, p, a0 + a1 + a2 + a3, a4);
        lemma_split(b, p, a0 + a1 + a2, a3);
        lemma_split(b, p, a0 + a1, a2);
        lemma_split(b, p, a0, a1);
        lemma_get_u32(b, p, v.interface_if_index);
        lemma_get_text(b, p + (a0).len(), v.interface_name);
        lemma_get_text(b, p + (a0 + a1).len(), v.ssid);
        lemma_get_text(b, p + (a0 + a1 + a2).len(), v.ssid_hex);
        lemma_get_opt_text(b, p + (a0 + a1 + a2 + a3).len(), v.profile_name);
        lemma_get_u8(b, p + (a0 + a1 + a2 + a3 + a4).len(), v.signal_quality);
        lemma_get_bool(b, p + (a0 + a1 + a2 + a3 + a4 + a5).len(), v.security_enabled);
        lemma_get_text(b, p + (a0 + a1 + a2 + a3 + a4 + a5 + a6).len(), v.authentication);
        lemma_get_text(b, p + (a0 + a1 + a2 + a3 + a4 + a5 + a6 + a7).len(), v.cipher);
        lemma_get_bool(b, p + (a0 + a1 + a2 + a3 + a4 + a5 + a6 + a7 + a8).len(), v.connectable);
        lemma_get_opt_u32(b, p + (a0 + a1 + a2 + a3 + a4 + a5 + a6 + a7 + a8 + a9).len(), v.not_connectable_reason);
        lemma_get_bool(b, p + (a0 + a1 + a2 + a3 + a4 + a5 + a6 + a7 + a8 + a9 + a10).len(), v.connected);
        lemma_get_u32(b, p + (a0 + a1 + a2 + a3 + a4 + a5 + a6 + a7 + a8 + a9 + a10 + a11).len(), v.bss_count);
    }

    proof fn lemma_nonempty(v: WifiNetworkView) {
    }
}

} // verus!
