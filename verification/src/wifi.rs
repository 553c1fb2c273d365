//! Native Wi-Fi decisions of the Windows backend: radio and interface states,
//! algorithm names, error classification, WLAN profile documents, and the
//! interfaces a scan targets. Native values arrive as the integers of the
//! WLAN API.

use vstd::prelude::*;
use vstd::string::StringSliceAdditionalSpecFns;
use vstd::utf8::{decode_utf8, encode_utf8, valid_utf8};

use crate::config::{WifiAuthentication, WifiProfile};
use crate::model::{WifiInterfaceStatus, WifiNetwork};
use crate::platform::{PlatformError, PlatformErrorKind};
use crate::text;
use crate::text::{append, dec, decimal, owned};
use crate::validate::{profile_name, wifi_profile_name};

verus! {

/// Summary of the radios of one interface.
#[derive(Clone, Copy, Debug, PartialEq, Eq, Structural)]
pub enum RadioState {
    /// Some radio is on in software and hardware.
    On,
    /// Every radio is off in software or hardware.
    Off,
    /// Neither of the above.
    Unknown,
}

/// `dot11_radio_state_on`.
pub const RADIO_ON: i32 = 1;

/// `dot11_radio_state_off`.
pub const RADIO_OFF: i32 = 2;

/// Software and hardware state of one radio (PHY).
#[derive(Clone, Copy, Debug, PartialEq, Eq, Structural)]
pub struct PhyRadio {
    /// `dot11SoftwareRadioState`.
    pub software: i32,
    /// `dot11HardwareRadioState`.
    pub hardware: i32,
}

/// The radio state of an interface from the first `count` entries of its
/// radio table: on when some radio is on in software and hardware, off when
/// every radio is off in one of them, unknown otherwise or when the count is
/// zero or beyond the table.
pub open spec fn radio_state_of(count: u32, phys: Seq<PhyRadio>) -> RadioState {
    if count == 0 || count > phys.len() {
        RadioState::Unknown
    } else if exists|i: int| 0 <= i < count && (#[trigger] phys[i]).software == RADIO_ON && phys[i].hardware == RADIO_ON {
        RadioState::On
    } else if forall|i: int| 0 <= i < count ==> (#[trigger] phys[i]).software == RADIO_OFF || phys[i].hardware == RADIO_OFF {
        RadioState::Off
    } else {
        RadioState::Unknown
    }
}

/// Classifies the radios of an interface.
pub fn classify_radio_state(count: u32, phys: &Vec<PhyRadio>) -> (r: RadioState)
    ensures
        r == radio_state_of(count, phys@),
{
    if count == 0 || count as usize > phys.len() {
        return RadioState::Unknown;
    }
    let n = count as usize;
    let mut all_off = true;
    for i in 0..n
        invariant
            n == count,
            n <= phys@.len(),
            forall|k: int| 0 <= k < i ==> !((#[trigger] phys@[k]).software == RADIO_ON && phys@[k].hardware == RADIO_ON),
            all_off == (forall|k: int| 0 <= k < i ==> (#[trigger] phys@[k]).software == RADIO_OFF || phys@[k].hardware == RADIO_OFF),
    {
        let p = phys[i];
        if p.software == RADIO_ON && p.hardware == RADIO_ON {
            return RadioState::On;
        }
        if !(p.software == RADIO_OFF || p.hardware == RADIO_OFF) {
            all_off = false;
        }
    }
    if all_off {
        RadioState::Off
    } else {
        RadioState::Unknown
    }
}

/// Stable name of a `WLAN_INTERFACE_STATE`.
pub open spec fn interface_state_text(state: i32) -> Seq<char> {
    if state == 0 {
        "not_ready"@
    } else if state == 1 {
        "connected"@
    } else if state == 2 {
        "ad_hoc_network_formed"@
    } else if state == 3 {
        "disconnecting"@
    } else if state == 4 {
        "disconnected"@
    } else if state == 5 {
        "associating"@
    } else if state == 6 {
        "discovering"@
    } else if state == 7 {
        "authenticating"@
    } else {
        "unknown"@
    }
}

/// Names a `WLAN_INTERFACE_STATE`.
pub fn interface_state_name(state: i32) -> (r: &'static str)
    ensures
        r@ == interface_state_text(state),
{
    if state == 0 {
        "not_ready"
    } else if state == 1 {
        "connected"
    } else if state == 2 {
        "ad_hoc_network_formed"
    } else if state == 3 {
        "disconnecting"
    } else if state == 4 {
        "disconnected"
    } else if state == 5 {
        "associating"
    } else if state == 6 {
        "discovering"
    } else if state == 7 {
        "authenticating"
    } else {
        "unknown"
    }
}

/// The state reported for an interface: a radio that is off overrides the
/// interface state.
pub fn effective_interface_state(state: i32, radio: RadioState) -> (r: &'static str)
    ensures
        radio == RadioState::Off ==> r@ == "radio_off"@,
        radio != RadioState::Off ==> r@ == interface_state_text(state),
{
    if radio == RadioState::Off {
        "radio_off"
    } else {
        interface_state_name(state)
    }
}

/// Decimal text of a signed integer.
pub open spec fn signed_text(v: int) -> Seq<char> {
    if v < 0 {
        "-"@ + dec((-v) as nat)
    } else {
        dec(v as nat)
    }
}

fn signed_decimal(v: i32) -> (r: String)
    ensures
        r@ == signed_text(v as int),
{
    if v < 0 {
        let magnitude: u64 = (0 - (v as i64)) as u64;
        let mut r = owned("-");
        let d = decimal(magnitude);
        append(&mut r, d.as_str());
        r
    } else {
        decimal(v as u64)
    }
}

/// Stable name of a `DOT11_AUTH_ALGORITHM`.
pub open spec fn auth_text(value: i32) -> Seq<char> {
    if value == 1 {
        "open"@
    } else if value == 2 {
        "shared_key"@
    } else if value == 3 {
        "wpa_enterprise"@
    } else if value == 4 {
        "wpa_personal"@
    } else if value == 5 {
        "wpa_none"@
    } else if value == 6 {
        "wpa2_enterprise"@
    } else if value == 7 {
        "wpa2_personal"@
    } else if value == 8 || value == 11 {
        "wpa3_enterprise"@
    } else if value == 9 {
        "wpa3_personal"@
    } else if value == 10 {
        "owe"@
    } else {
        "unknown("@ + signed_text(value as int) + ")"@
    }
}

/// Names a `DOT11_AUTH_ALGORITHM`.
pub fn auth_name(value: i32) -> (r: String)
    ensures
        r@ == auth_text(value),
{
    let name = if value == 1 {
        "open"
    } else if value == 2 {
        "shared_key"
    } else if value == 3 {
        "wpa_enterprise"
    } else if value == 4 {
        "wpa_personal"
    } else if value == 5 {
        "wpa_none"
    } else if value == 6 {
        "wpa2_enterprise"
    } else if value == 7 {
        "wpa2_personal"
    } else if value == 8 || value == 11 {
        "wpa3_enterprise"
    } else if value == 9 {
        "wpa3_personal"
    } else if value == 10 {
        "owe"
    } else {
        let mut r = owned("unknown(");
        let d = signed_decimal(value);
        append(&mut r, d.as_str());
        append(&mut r, ")");
        return r;
    };
    owned(name)
}

/// Stable name of a `DOT11_CIPHER_ALGORITHM`.
pub open spec fn cipher_text(value: i32) -> Seq<char> {
    if value == 0x00 {
        "none"@
    } else if value == 0x01 {
        "wep40"@
    } else if value == 0x02 {
        "tkip"@
    } else if value == 0x04 {
        "ccmp"@
    } else if value == 0x05 {
        "wep104"@
    } else if value == 0x06 {
        "bip"@
    } else if value == 0x08 {
        "gcmp"@
    } else if value == 0x09 {
        "gcmp_256"@
    } else if value == 0x0a {
        "ccmp_256"@
    } else if value == 0x0b {
        "bip_gmac_128"@
    } else if value == 0x0c {
        "bip_gmac_256"@
    } else if value == 0x0d {
        "bip_cmac_256"@
    } else if value == 0x100 {
        "use_group"@
    } else if value == 0x101 {
        "wep"@
    } else {
        "unknown("@ + signed_text(value as int) + ")"@
    }
}

/// Names a `DOT11_CIPHER_ALGORITHM`.
pub fn cipher_name(value: i32) -> (r: String)
    ensures
        r@ == cipher_text(value),
{
    let name = if value == 0x00 {
        "none"
    } else if value == 0x01 {
        "wep40"
    } else if value == 0x02 {
        "tkip"
    } else if value == 0x04 {
        "ccmp"
    } else if value == 0x05 {
        "wep104"
    } else if value == 0x06 {
        "bip"
    } else if value == 0x08 {
        "gcmp"
    } else if value == 0x09 {
        "gcmp_256"
    } else if value == 0x0a {
        "ccmp_256"
    } else if value == 0x0b {
        "bip_gmac_128"
    } else if value == 0x0c {
        "bip_gmac_256"
    } else if value == 0x0d {
        "bip_cmac_256"
    } else if value == 0x100 {
        "use_group"
    } else if value == 0x101 {
        "wep"
    } else {
        let mut r = owned("unknown(");
        let d = signed_decimal(value);
        append(&mut r, d.as_str());
        append(&mut r, ")");
        return r;
    };
    owned(name)
}

/// `ERROR_NDIS_DOT11_POWER_STATE_INVALID`: the radio is off.
pub const ERROR_RADIO_OFF: u32 = 0x8034_2002;

/// Failure category of a WLAN API error code.
pub open spec fn wlan_error_kind(code: u32) -> PlatformErrorKind {
    if code == 5 {
        PlatformErrorKind::PermissionDenied
    } else if code == 2 || code == 1168 {
        PlatformErrorKind::NotFound
    } else if code == 87 {
        PlatformErrorKind::InvalidConfig
    } else if code == 1062 {
        PlatformErrorKind::Unsupported
    } else {
        PlatformErrorKind::Internal
    }
}

/// Classifies the result code of a WLAN API call: success, a radio that is
/// off (actionable and unsupported), or a failure of the mapped kind.
pub fn wlan_result(operation: &str, code: u32) -> (r: Result<(), PlatformError>)
    ensures
        code == 0 ==> r is Ok,
        code == ERROR_RADIO_OFF ==> (r matches Err(e) && e.kind == PlatformErrorKind::Unsupported
            && e.message@ == operation@
            + " is unavailable because the Wi-Fi radio is off; turn on Wi-Fi and retry"@
            && !e.rolled_back),
        code != 0 && code != ERROR_RADIO_OFF ==> (r matches Err(e) && e.kind == wlan_error_kind(code)
            && e.message@ == operation@ + " failed with Windows error "@ + dec(code as nat)
            && !e.rolled_back),
{
    if code == 0 {
        return Ok(());
    }
    if code == ERROR_RADIO_OFF {
        let mut m = owned(operation);
        append(&mut m, " is unavailable because the Wi-Fi radio is off; turn on Wi-Fi and retry");
        return Err(PlatformError::unsupported(m));
    }
    let kind = if code == 5 {
        PlatformErrorKind::PermissionDenied
    } else if code == 2 || code == 1168 {
        PlatformErrorKind::NotFound
    } else if code == 87 {
        PlatformErrorKind::InvalidConfig
    } else if code == 1062 {
        PlatformErrorKind::Unsupported
    } else {
        PlatformErrorKind::Internal
    };
    let mut m = owned(operation);
    append(&mut m, " failed with Windows error ");
    let d = decimal(code as u64);
    append(&mut m, d.as_str());
    Err(PlatformError::new(kind, m))
}

/// Signal quality capped at 100.
pub fn quality(value: u32) -> (r: u8)
    ensures
        r == if value > 100 {
            100
        } else {
            value
        },
{
    if value > 100 {
        100
    } else {
        value as u8
    }
}

/// Uppercase hexadecimal digit of a nibble.
pub open spec fn hex_digit(n: int) -> char {
    if n < 10 {
        (('0' as int) + n) as char
    } else {
        (('A' as int) + n - 10) as char
    }
}

/// Uppercase hexadecimal text of bytes.
pub open spec fn hex_text(b: Seq<u8>) -> Seq<char>
    decreases b.len(),
{
    if b.len() == 0 {
        Seq::empty()
    } else {
        hex_text(b.drop_last()).push(hex_digit((b.last() / 16) as int)).push(hex_digit((b.last() % 16) as int))
    }
}

pub(crate) fn hex_char(n: u8) -> (c: char)
    requires
        n < 16,
    ensures
        c == hex_digit(n as int),
{
    if n < 10 {
        ((48 + n) as u32 as u8) as char
    } else {
        ((55 + n) as u32 as u8) as char
    }
}

/// `String::from_utf8_lossy` names its result: invalid sequences become
/// U+FFFD, which is not restated here.
pub uninterp spec fn lossy_text(b: Seq<u8>) -> Seq<char>;

/// `String::from_utf8_lossy`: valid UTF-8 decodes as itself; the replacement
/// of invalid sequences is named by `lossy_text`.
#[verifier::external_body]
pub(crate) fn utf8_lossy(bytes: &[u8]) -> (r: String)
    ensures
        r@ == lossy_text(bytes@),
        valid_utf8(bytes@) ==> r@ == decode_utf8(bytes@),
{
    String::from_utf8_lossy(bytes).into_owned()
}

/// Display and hexadecimal forms of an SSID: the first `length` bytes of the
/// SSID buffer, refused when the length is beyond the buffer.
pub fn ssid_parts(buffer: &[u8], length: u32) -> (r: Result<(String, String), PlatformError>)
    ensures
        length > buffer@.len() ==> (r matches Err(e) && e.kind == PlatformErrorKind::Internal
            && e.message@ == "Native Wi-Fi returned an invalid SSID length"@),
        length <= buffer@.len() ==> (r matches Ok((display, hex)) && display@ == lossy_text(
            buffer@.take(length as int),
        ) && hex@ == hex_text(buffer@.take(length as int))),
{
    if length as usize > buffer.len() {
        return Err(PlatformError::internal(owned("Native Wi-Fi returned an invalid SSID length")));
    }
    let n = length as usize;
    let mut bytes: Vec<u8> = Vec::new();
    let mut hex: Vec<char> = Vec::new();
    for i in 0..n
        invariant
            n == length,
            n <= buffer@.len(),
            bytes@ == buffer@.take(i as int),
            hex@ == hex_text(buffer@.take(i as int)),
    {
        let b = buffer[i];
        bytes.push(b);
        hex.push(hex_char(b / 16));
        hex.push(hex_char(b % 16));
        proof {
            assert(buffer@.take(i + 1) =~= buffer@.take(i as int).push(b));
            assert(buffer@.take(i + 1).drop_last() =~= buffer@.take(i as int));
        }
    }
    let display = utf8_lossy(bytes.as_slice());
    Ok((display, text::string_of(&hex)))
}

/// XML escape of one character.
pub open spec fn xml_char(c: char) -> Seq<char> {
    if c == '&' {
        "&amp;"@
    } else if c == '<' {
        "&lt;"@
    } else if c == '>' {
        "&gt;"@
    } else if c == '"' {
        "&quot;"@
    } else if c == '\'' {
        "&apos;"@
    } else {
        seq![c]
    }
}

/// XML text of a string: markup characters become entities.
pub open spec fn xml_text(s: Seq<char>) -> Seq<char>
    decreases s.len(),
{
    if s.len() == 0 {
        Seq::empty()
    } else {
        xml_text(s.drop_last()) + xml_char(s.last())
    }
}

/// Escapes XML markup characters.
pub fn xml_escape(value: &str) -> (r: String)
    ensures
        r@ == xml_text(value@),
{
    let chars = text::chars_of(value);
    let mut out = String::new();
    let n = chars.len();
    for i in 0..n
        invariant
            n == chars@.len(),
            chars@ == value@,
            out@ == xml_text(value@.take(i as int)),
    {
        let c = chars[i];
        proof {
            assert(value@.take(i + 1).drop_last() =~= value@.take(i as int));
        }
        if c == '&' {
            append(&mut out, "&amp;");
        } else if c == '<' {
            append(&mut out, "&lt;");
        } else if c == '>' {
            append(&mut out, "&gt;");
        } else if c == '"' {
            append(&mut out, "&quot;");
        } else if c == '\'' {
            append(&mut out, "&apos;");
        } else {
            text::push_char(&mut out, c);
        }
    }
    proof {
        assert(value@.take(n as int) =~= value@);
    }
    out
}

/// The byte is printable ASCII.
pub open spec fn printable(b: u8) -> bool {
    32 <= b <= 126
}

/// A resolved PSK is usable: an 8 to 63 byte printable ASCII passphrase, or
/// for WPA2 a raw key of 64 hexadecimal digits.
pub open spec fn runtime_psk_ok(secret: Seq<u8>, auth: WifiAuthentication) -> bool {
    let hex = secret.len() == 64 && forall|i: int| 0 <= i < secret.len() ==> text::is_ascii_hex(#[trigger] secret[i] as char);
    let passphrase = 8 <= secret.len() <= 63 && forall|i: int| 0 <= i < secret.len() ==> printable(#[trigger] secret[i]);
    passphrase || (auth == WifiAuthentication::Wpa2Personal && hex)
}

fn bytes_all_hex(b: &[u8]) -> (r: bool)
    ensures
        r == forall|i: int| 0 <= i < b@.len() ==> text::is_ascii_hex(#[trigger] b@[i] as char),
{
    for i in 0..b.len()
        invariant
            forall|k: int| 0 <= k < i ==> text::is_ascii_hex(#[trigger] b@[k] as char),
    {
        let c = b[i];
        if !((48 <= c && c <= 57) || (65 <= c && c <= 70) || (97 <= c && c <= 102)) {
            assert(!text::is_ascii_hex(b@[i as int] as char));
            return false;
        }
    }
    true
}

fn bytes_all_printable(b: &[u8]) -> (r: bool)
    ensures
        r == forall|i: int| 0 <= i < b@.len() ==> printable(#[trigger] b@[i]),
{
    for i in 0..b.len()
        invariant
            forall|k: int| 0 <= k < i ==> printable(#[trigger] b@[k]),
    {
        if !(32 <= b[i] && b[i] <= 126) {
            return false;
        }
    }
    true
}

/// Checks a resolved PSK.
pub fn validate_runtime_psk(secret: &str, auth: WifiAuthentication) -> (r: Result<(), PlatformError>)
    ensures
        runtime_psk_ok(secret.spec_bytes(), auth) ==> r is Ok,
        !runtime_psk_ok(secret.spec_bytes(), auth) ==> (r matches Err(e) && e.kind
            == PlatformErrorKind::InvalidConfig && e.message@
            == "resolved Wi-Fi PSK must be an 8 to 63 byte printable ASCII passphrase; WPA2 also accepts 64 hexadecimal digits"@),
{
    let b = secret.as_bytes();
    let n = b.len();
    let hex = n == 64 && bytes_all_hex(b);
    let passphrase = 8 <= n && n <= 63 && bytes_all_printable(b);
    if passphrase || (auth == WifiAuthentication::Wpa2Personal && hex) {
        Ok(())
    } else {
        Err(
            PlatformError::invalid_config(
                owned(
                    "resolved Wi-Fi PSK must be an 8 to 63 byte printable ASCII passphrase; WPA2 also accepts 64 hexadecimal digits",
                ),
            ),
        )
    }
}

/// The `<security>` element of a profile.
pub open spec fn security_xml(auth: WifiAuthentication, secret: Seq<char>) -> Seq<char> {
    if auth == WifiAuthentication::Open {
        "<authEncryption><authentication>open</authentication><encryption>none</encryption><useOneX>false</useOneX></authEncryption>"@
    } else {
        "<authEncryption><authentication>"@ + (if auth == WifiAuthentication::Wpa2Personal {
            "WPA2PSK"@
        } else {
            "WPA3SAE"@
        }) + "</authentication><encryption>AES</encryption><useOneX>false</useOneX></authEncryption><sharedKey><keyType>"@
            + (if auth == WifiAuthentication::Wpa2Personal && text::byte_len(secret) == 64
            && forall|i: int| 0 <= i < secret.len() ==> text::is_ascii_hex(#[trigger] secret[i]) {
            "networkKey"@
        } else {
            "passPhrase"@
        }) + "</keyType><protected>false</protected><keyMaterial>"@ + xml_text(secret)
            + "</keyMaterial></sharedKey>"@
    }
}

/// The WLAN profile document of a profile with a resolved secret.
pub open spec fn profile_document(p: WifiProfile, secret: Seq<char>) -> Seq<char> {
    "<?xml version=\"1.0\"?><WLANProfile xmlns=\"https://www.microsoft.com/networking/WLAN/profile/v1\"><name>"@
        + xml_text(profile_name(p)) + "</name><SSIDConfig><SSID><name>"@ + xml_text(p.ssid@)
        + "</name></SSID>"@ + (if p.hidden {
        "<nonBroadcast>true</nonBroadcast>"@
    } else {
        Seq::empty()
    }) + "</SSIDConfig><connectionType>ESS</connectionType><connectionMode>"@ + (if p.auto_connect {
        "auto"@
    } else {
        "manual"@
    }) + "</connectionMode><autoSwitch>false</autoSwitch><MSM><security>"@ + security_xml(
        p.authentication,
        secret,
    ) + "</security></MSM></WLANProfile>"@
}

proof fn lemma_inner_piece(x: Seq<char>, a: Seq<char>, m: Seq<char>, b: Seq<char>, y: Seq<char>)
    requires
        a.len() <= x.len(),
        x.subrange(x.len() - a.len(), x.len() as int) == a,
        b.len() <= y.len(),
        y.subrange(0, b.len() as int) == b,
    ensures
        crate::cli::contains_text(x + m + y, a + m + b),
{
    let w = x + m + y;
    let k = x.len() - a.len();
    assert(w.subrange(k, k + (a + m + b).len()) =~= a + m + b);
}

/// A profile document connects automatically exactly as the profile says:
/// its connection mode is `auto` when `auto_connect` is set and `manual`
/// otherwise.
pub proof fn lemma_profile_connection_mode(p: WifiProfile, secret: Seq<char>)
    ensures
        p.auto_connect ==> crate::cli::contains_text(
            profile_document(p, secret),
            "<connectionMode>auto</connectionMode>"@,
        ),
        !p.auto_connect ==> crate::cli::contains_text(
            profile_document(p, secret),
            "<connectionMode>manual</connectionMode>"@,
        ),
{
    let open_tag = "</SSIDConfig><connectionType>ESS</connectionType><connectionMode>"@;
    let close_tag = "</connectionMode><autoSwitch>false</autoSwitch><MSM><security>"@;
    let mode = if p.auto_connect {
        "auto"@
    } else {
        "manual"@
    };
    let x = "<?xml version=\"1.0\"?><WLANProfile xmlns=\"https://www.microsoft.com/networking/WLAN/profile/v1\"><name>"@
        + xml_text(profile_name(p)) + "</name><SSIDConfig><SSID><name>"@ + xml_text(p.ssid@)
        + "</name></SSID>"@ + (if p.hidden {
        "<nonBroadcast>true</nonBroadcast>"@
    } else {
        Seq::empty()
    }) + open_tag;
    let y = close_tag + security_xml(p.authentication, secret) + "</security></MSM></WLANProfile>"@;
    reveal_strlit("</SSIDConfig><connectionType>ESS</connectionType><connectionMode>");
    reveal_strlit("</connectionMode><autoSwitch>false</autoSwitch><MSM><security>");
    reveal_strlit("<connectionMode>");
    reveal_strlit("</connectionMode>");
    let a = "<connectionMode>"@;
    let b = "</connectionMode>"@;
    assert(x.subrange(x.len() - a.len(), x.len() as int) =~= a);
    assert(y.subrange(0, b.len() as int) =~= b);
    reveal_strlit("auto");
    reveal_strlit("manual");
    reveal_strlit("<connectionMode>auto</connectionMode>");
    reveal_strlit("<connectionMode>manual</connectionMode>");
    assert("<connectionMode>auto</connectionMode>"@ =~= a + "auto"@ + b);
    assert("<connectionMode>manual</connectionMode>"@ =~= a + "manual"@ + b);
    lemma_inner_piece(x, a, mode, b, y);
    assert(profile_document(p, secret) =~= x + mode + y);
}

/// A hidden network's profile says that its SSID is not broadcast.
pub proof fn lemma_hidden_profile_is_marked(p: WifiProfile, secret: Seq<char>)
    requires
        p.hidden,
    ensures
        crate::cli::contains_text(profile_document(p, secret), "<nonBroadcast>true</nonBroadcast>"@),
{
    let x = "<?xml version=\"1.0\"?><WLANProfile xmlns=\"https://www.microsoft.com/networking/WLAN/profile/v1\"><name>"@
        + xml_text(profile_name(p)) + "</name><SSIDConfig><SSID><name>"@ + xml_text(p.ssid@)
        + "</name></SSID>"@;
    let m = "<nonBroadcast>true</nonBroadcast>"@;
    let y = "</SSIDConfig><connectionType>ESS</connectionType><connectionMode>"@ + (if p.auto_connect {
        "auto"@
    } else {
        "manual"@
    }) + "</connectionMode><autoSwitch>false</autoSwitch><MSM><security>"@ + security_xml(
        p.authentication,
        secret,
    ) + "</security></MSM></WLANProfile>"@;
    assert(profile_document(p, secret) =~= x + m + y);
    let w = x + m + y;
    assert(w.subrange(x.len() as int, (x.len() + m.len()) as int) =~= m);
}

/// Builds the WLAN profile document of a profile. `secret` is the resolved
/// PSK of a secured profile, absent when the profile names none.
pub fn profile_xml(p: &WifiProfile, secret: Option<String>) -> (r: Result<String, PlatformError>)
    ensures
        p.authentication == WifiAuthentication::Open ==> (r matches Ok(x) && x@ == profile_document(
            *p,
            Seq::empty(),
        )),
        p.authentication != WifiAuthentication::Open ==> match secret {
            None => r matches Err(e) && e.kind == PlatformErrorKind::InvalidConfig && e.message@
                == "secured Wi-Fi profile has no PSK reference"@,
            Some(s) => (runtime_psk_ok(encode_utf8(s@), p.authentication) ==> (r matches Ok(x)
                && x@ == profile_document(*p, s@))) && (!runtime_psk_ok(
                encode_utf8(s@),
                p.authentication,
            ) ==> (r matches Err(e) && e.kind == PlatformErrorKind::InvalidConfig && e.message@
                == "resolved Wi-Fi PSK must be an 8 to 63 byte printable ASCII passphrase; WPA2 also accepts 64 hexadecimal digits"@)),
        },
{
    let secret_text: String = match p.authentication {
        WifiAuthentication::Open => String::new(),
        _ => match secret {
            None => {
                return Err(
                    PlatformError::invalid_config(owned("secured Wi-Fi profile has no PSK reference")),
                );
            },
            Some(s) => {
                validate_runtime_psk(s.as_str(), p.authentication)?;
                s
            },
        },
    };
    let mut x = owned(
        "<?xml version=\"1.0\"?><WLANProfile xmlns=\"https://www.microsoft.com/networking/WLAN/profile/v1\"><name>",
    );
    let name = xml_escape(wifi_profile_name(p));
    append(&mut x, name.as_str());
    append(&mut x, "</name><SSIDConfig><SSID><name>");
    let ssid = xml_escape(p.ssid.as_str());
    append(&mut x, ssid.as_str());
    append(&mut x, "</name></SSID>");
    if p.hidden {
        append(&mut x, "<nonBroadcast>true</nonBroadcast>");
    }
    append(&mut x, "</SSIDConfig><connectionType>ESS</connectionType><connectionMode>");
    append(
        &mut x,
        if p.auto_connect {
            "auto"
        } else {
            "manual"
        },
    );
    append(&mut x, "</connectionMode><autoSwitch>false</autoSwitch><MSM><security>");
    if p.authentication == WifiAuthentication::Open {
        append(
            &mut x,
            "<authEncryption><authentication>open</authentication><encryption>none</encryption><useOneX>false</useOneX></authEncryption>",
        );
    } else {
        append(&mut x, "<authEncryption><authentication>");
        append(
            &mut x,
            if p.authentication == WifiAuthentication::Wpa2Personal {
                "WPA2PSK"
            } else {
                "WPA3SAE"
            },
        );
        append(
            &mut x,
            "</authentication><encryption>AES</encryption><useOneX>false</useOneX></authEncryption><sharedKey><keyType>",
        );
        let chars = text::chars_of(secret_text.as_str());
        let raw = p.authentication == WifiAuthentication::Wpa2Personal && text::str_byte_len(
            secret_text.as_str(),
        ) == 64 && crate::checks::chars_all_hex(&chars);
        append(
            &mut x,
            if raw {
                "networkKey"
            } else {
                "passPhrase"
            },
        );
        append(&mut x, "</keyType><protected>false</protected><keyMaterial>");
        let key = xml_escape(secret_text.as_str());
        append(&mut x, key.as_str());
        append(&mut x, "</keyMaterial></sharedKey>");
    }
    append(&mut x, "</security></MSM></WLANProfile>");
    proof {
        reveal_strlit("");
        assert(x@ =~= profile_document(*p, secret_text@));
    }
    Ok(x)
}

/// A Native Wi-Fi interface.
#[derive(Clone, Debug, PartialEq, Eq)]
pub struct NativeWifiInterface {
    /// Interface GUID.
    pub guid: u128,
    /// Windows interface index.
    pub if_index: u32,
    /// Interface description.
    pub description: String,
    /// `WLAN_INTERFACE_STATE`.
    pub state: i32,
}

/// Position of the first interface with an index.
pub open spec fn interface_position(interfaces: Seq<NativeWifiInterface>, if_index: u32) -> Option<int>
    decreases interfaces.len(),
{
    if interfaces.len() == 0 {
        None
    } else {
        match interface_position(interfaces.drop_last(), if_index) {
            Some(i) => Some(i),
            None => if interfaces.last().if_index == if_index {
                Some(interfaces.len() - 1)
            } else {
                None
            },
        }
    }
}

/// The interfaces a Wi-Fi request targets, as positions in `interfaces`: the
/// one with the requested index, or every interface when none is requested.
pub fn select_wifi_interfaces(interfaces: &Vec<NativeWifiInterface>, if_index: Option<u32>) -> (r:
    Result<Vec<usize>, PlatformError>)
    ensures
        match if_index {
            Some(k) => match interface_position(interfaces@, k) {
                Some(j) => r matches Ok(v) && v@.len() == 1 && v@[0] as int == j,
                None => r matches Err(e) && e.kind == PlatformErrorKind::NotFound && e.message@
                    == "no enabled Native Wi-Fi interface exists with if_index="@ + dec(k as nat),
            },
            None => if interfaces@.len() == 0 {
                r matches Err(e) && e.kind == PlatformErrorKind::NotFound && e.message@
                    == "no enabled Native Wi-Fi interface is available"@
            } else {
                r matches Ok(v) && v@.len() == interfaces@.len() && forall|i: int|
                    0 <= i < v@.len() ==> #[trigger] v@[i] == i
            },
        },
{
    let n = interfaces.len();
    match if_index {
        Some(k) => {
            for j in 0..n
                invariant
                    n == interfaces@.len(),
                    if_index == Some(k),
                    interface_position(interfaces@.take(j as int), k) is None,
            {
                proof {
                    assert(interfaces@.take(j + 1).drop_last() =~= interfaces@.take(j as int));
                }
                if interfaces[j].if_index == k {
                    proof {
                        let t = interfaces@.take(j + 1);
                        assert(t.last() == interfaces@[j as int]);
                        assert(t.drop_last() =~= interfaces@.take(j as int));
                        assert(interface_position(t, k) == Some(j as int));
                        lemma_position_prefix(interfaces@, k, j + 1);
                        assert(interface_position(interfaces@, k) == Some(j as int));
                    }
                    let mut v: Vec<usize> = Vec::new();
                    v.push(j);
                    assert(v@ =~= seq![j]);
                    return Ok(v);
                }
            }
            proof {
                assert(interfaces@.take(n as int) =~= interfaces@);
            }
            let mut m = owned("no enabled Native Wi-Fi interface exists with if_index=");
            let d = decimal(k as u64);
            append(&mut m, d.as_str());
            Err(PlatformError::not_found(m))
        },
        None => {
            if n == 0 {
                return Err(PlatformError::not_found(owned("no enabled Native Wi-Fi interface is available")));
            }
            let mut v: Vec<usize> = Vec::new();
            for i in 0..n
                invariant
                    v@.len() == i,
                    forall|t: int| 0 <= t < i ==> #[trigger] v@[t] == t,
            {
                v.push(i);
            }
            Ok(v)
        },
    }
}

/// The first position found in a prefix that holds it is the first position.
proof fn lemma_position_prefix(s: Seq<NativeWifiInterface>, k: u32, m: int)
    requires
        0 < m <= s.len(),
        interface_position(s.take(m), k) is Some,
    ensures
        interface_position(s, k) == interface_position(s.take(m), k),
    decreases s.len() - m,
{
    if m < s.len() {
        assert(s.take(m + 1).drop_last() =~= s.take(m));
        lemma_position_prefix(s, k, m + 1);
    } else {
        assert(s.take(m) =~= s);
    }
}


// ---------------------------------------------------------------------------
// WLAN records
// ---------------------------------------------------------------------------

/// `wlan_interface_state_connected`.
pub const INTERFACE_STATE_CONNECTED: i32 = 1;

/// `WLAN_AVAILABLE_NETWORK_CONNECTED`.
pub const AVAILABLE_NETWORK_CONNECTED: u32 = 1;

/// The fields of one `WLAN_AVAILABLE_NETWORK` record that a scan reports.
pub struct AvailableNetworkRecord {
    /// `dot11Ssid.ucSSID`.
    pub ssid: Vec<u8>,
    /// `dot11Ssid.uSSIDLength`.
    pub ssid_length: u32,
    /// `strProfileName`, decoded.
    pub profile_name: String,
    /// `wlanSignalQuality`.
    pub signal_quality: u32,
    /// `bSecurityEnabled`.
    pub security_enabled: bool,
    /// `dot11DefaultAuthAlgorithm`.
    pub authentication: i32,
    /// `dot11DefaultCipherAlgorithm`.
    pub cipher: i32,
    /// `bNetworkConnectable`.
    pub connectable: bool,
    /// `wlanNotConnectableReason`.
    pub not_connectable_reason: u32,
    /// `dwFlags`.
    pub flags: u32,
    /// `uNumberOfBssids`.
    pub bss_count: u32,
}

/// An optional text that is absent when empty.
pub open spec fn nonempty(s: Seq<char>) -> Option<Seq<char>> {
    if s.len() > 0 {
        Some(s)
    } else {
        None
    }
}

/// The network a scan record describes.
pub fn decode_network(record: &AvailableNetworkRecord, if_index: u32, interface_name: &str) -> (r: Result<
    WifiNetwork,
    PlatformError,
>)
    ensures
        record.ssid_length > record.ssid@.len() ==> (r matches Err(e) && e.kind == PlatformErrorKind::Internal
            && e.message@ == "Native Wi-Fi returned an invalid SSID length"@),
        record.ssid_length <= record.ssid@.len() ==> (r matches Ok(n) && {
            let bytes = record.ssid@.take(record.ssid_length as int);
            &&& n.interface_if_index == if_index
            &&& n.interface_name@ == interface_name@
            &&& n.ssid@ == lossy_text(bytes)
            &&& n.ssid_hex@ == hex_text(bytes)
            &&& n.profile_name.deep_view() == nonempty(record.profile_name@)
            &&& n.signal_quality == (if record.signal_quality > 100 { 100 } else { record.signal_quality })
            &&& n.security_enabled == record.security_enabled
            &&& n.authentication@ == auth_text(record.authentication)
            &&& n.cipher@ == cipher_text(record.cipher)
            &&& n.connectable == record.connectable
            &&& n.not_connectable_reason == (if record.connectable {
                None
            } else {
                Some(record.not_connectable_reason)
            })
            &&& n.connected == (record.flags & AVAILABLE_NETWORK_CONNECTED != 0)
            &&& n.bss_count == record.bss_count
        }),
{
    let (ssid, ssid_hex) = ssid_parts(record.ssid.as_slice(), record.ssid_length)?;
    let profile_name = if record.profile_name.as_str().is_empty() {
        None
    } else {
        Some(record.profile_name.clone())
    };
    Ok(WifiNetwork {
        interface_if_index: if_index,
        interface_name: owned(interface_name),
        ssid,
        ssid_hex,
        profile_name,
        signal_quality: quality(record.signal_quality),
        security_enabled: record.security_enabled,
        authentication: auth_name(record.authentication),
        cipher: cipher_name(record.cipher),
        connectable: record.connectable,
        not_connectable_reason: if record.connectable {
            None
        } else {
            Some(record.not_connectable_reason)
        },
        connected: record.flags & AVAILABLE_NETWORK_CONNECTED != 0,
        bss_count: record.bss_count,
    })
}

/// The fields of a `WLAN_CONNECTION_ATTRIBUTES` record that a status reports.
pub struct ConnectionRecord {
    /// `isState`.
    pub state: i32,
    /// `strProfileName`, decoded.
    pub profile_name: String,
    /// `wlanAssociationAttributes.dot11Ssid.ucSSID`.
    pub ssid: Vec<u8>,
    /// `wlanAssociationAttributes.dot11Ssid.uSSIDLength`.
    pub ssid_length: u32,
    /// `wlanAssociationAttributes.wlanSignalQuality`.
    pub signal_quality: u32,
    /// `wlanSecurityAttributes.bSecurityEnabled`.
    pub security_enabled: bool,
    /// `wlanSecurityAttributes.dot11AuthAlgorithm`.
    pub authentication: i32,
    /// `wlanSecurityAttributes.dot11CipherAlgorithm`.
    pub cipher: i32,
    /// `wlanAssociationAttributes.ulRxRate`.
    pub rx_rate_kbps: u32,
    /// `wlanAssociationAttributes.ulTxRate`.
    pub tx_rate_kbps: u32,
}

/// The status of an interface: its effective state, and the details of its
/// connection when it is connected. The connection is not read while the
/// radio is off (`connection` is then ignored).
pub fn interface_status(
    if_index: u32,
    name: &str,
    guid: Option<String>,
    state: i32,
    radio: RadioState,
    connection: Option<ConnectionRecord>,
) -> (r: Result<WifiInterfaceStatus, PlatformError>)
    ensures
        ({
            let c = if radio == RadioState::Off {
                None
            } else {
                match connection {
                    Some(c) => if c.state == INTERFACE_STATE_CONNECTED {
                        Some(c)
                    } else {
                        None
                    },
                    None => None,
                }
            };
            match c {
                Some(c) if c.ssid_length > c.ssid@.len() => r matches Err(e) && e.kind
                    == PlatformErrorKind::Internal && e.message@ == "Native Wi-Fi returned an invalid SSID length"@,
                _ => r matches Ok(s) && {
                    &&& s.if_index == if_index
                    &&& s.name@ == name@
                    &&& s.guid.deep_view() == guid.deep_view()
                    &&& s.state@ == (if radio == RadioState::Off {
                        "radio_off"@
                    } else {
                        interface_state_text(state)
                    })
                    &&& match c {
                        None => s.profile_name is None && s.ssid is None && s.ssid_hex is None
                            && s.signal_quality is None && s.security_enabled is None && s.authentication is None
                            && s.cipher is None && s.rx_rate_kbps is None && s.tx_rate_kbps is None,
                        Some(c) => {
                            let bytes = c.ssid@.take(c.ssid_length as int);
                            &&& s.profile_name.deep_view() == nonempty(c.profile_name@)
                            &&& s.ssid.deep_view() == Some(lossy_text(bytes))
                            &&& s.ssid_hex.deep_view() == Some(hex_text(bytes))
                            &&& s.signal_quality == Some(
                                if c.signal_quality > 100 {
                                    100u8
                                } else {
                                    c.signal_quality as u8
                                },
                            )
                            &&& s.security_enabled == Some(c.security_enabled)
                            &&& s.authentication.deep_view() == Some(auth_text(c.authentication))
                            &&& s.cipher.deep_view() == Some(cipher_text(c.cipher))
                            &&& s.rx_rate_kbps == Some(c.rx_rate_kbps)
                            &&& s.tx_rate_kbps == Some(c.tx_rate_kbps)
                        },
                    }
                },
            }
        }),
{
    let state_name = owned(effective_interface_state(state, radio));
    let connected = if radio == RadioState::Off {
        None
    } else {
        match connection {
            Some(c) => if c.state == INTERFACE_STATE_CONNECTED {
                Some(c)
            } else {
                None
            },
            None => None,
        }
    };
    match connected {
        None => Ok(WifiInterfaceStatus {
            if_index,
            name: owned(name),
            guid,
            state: state_name,
            profile_name: None,
            ssid: None,
            ssid_hex: None,
            signal_quality: None,
            security_enabled: None,
            authentication: None,
            cipher: None,
            rx_rate_kbps: None,
            tx_rate_kbps: None,
        }),
        Some(c) => {
            let (ssid, ssid_hex) = ssid_parts(c.ssid.as_slice(), c.ssid_length)?;
            let profile_name = if c.profile_name.as_str().is_empty() {
                None
            } else {
                Some(c.profile_name)
            };
            Ok(WifiInterfaceStatus {
                if_index,
                name: owned(name),
                guid,
                state: state_name,
                profile_name,
                ssid: Some(ssid),
                ssid_hex: Some(ssid_hex),
                signal_quality: Some(quality(c.signal_quality)),
                security_enabled: Some(c.security_enabled),
                authentication: Some(auth_name(c.authentication)),
                cipher: Some(cipher_name(c.cipher)),
                rx_rate_kbps: Some(c.rx_rate_kbps),
                tx_rate_kbps: Some(c.tx_rate_kbps),
            })
        },
    }
}

/// `ERROR_NOT_FOUND`.
pub const ERROR_NOT_FOUND: u32 = 1168;

/// `ERROR_INVALID_STATE`.
pub const ERROR_INVALID_STATE: u32 = 5023;

/// Whether the result of a current-connection query means that there is no
/// connection (not found, or an interface in no connectable state).
pub fn no_connection(code: u32) -> (r: bool)
    ensures
        r == (code == ERROR_NOT_FOUND || code == ERROR_INVALID_STATE),
{
    code == ERROR_NOT_FOUND || code == ERROR_INVALID_STATE
}

/// Whether a disconnect request found the interface disconnected already.
pub fn already_disconnected(code: u32) -> (r: bool)
    ensures
        r == (code == ERROR_INVALID_STATE),
{
    code == ERROR_INVALID_STATE
}

/// Whether the interface reached the wanted connection: no profile when none
/// is wanted, else the wanted profile, ignoring ASCII case.
pub fn profile_reached(current: &Option<String>, desired: &Option<String>) -> (r: bool)
    ensures
        r == match (current, desired) {
            (None, None) => true,
            (Some(c), Some(d)) => text::eq_ignore_case(c@, d@),
            _ => false,
        },
{
    match (current, desired) {
        (None, None) => true,
        (Some(c), Some(d)) => text::str_eq_ignore_case(c.as_str(), d.as_str()),
        _ => false,
    }
}

/// Seconds to wait for a connection change.
pub const CONNECTION_TIMEOUT_SECONDS: u64 = 30;

/// The failure of a connection change that did not complete in time.
pub fn connection_timeout() -> (e: PlatformError)
    ensures
        e.kind == PlatformErrorKind::Internal,
        e.message@ == "Native Wi-Fi did not reach the requested connection state within "@ + dec(
            CONNECTION_TIMEOUT_SECONDS as nat,
        ) + " seconds"@,
        !e.rolled_back,
{
    let mut m = owned("Native Wi-Fi did not reach the requested connection state within ");
    let d = decimal(CONNECTION_TIMEOUT_SECONDS);
    append(&mut m, d.as_str());
    append(&mut m, " seconds");
    PlatformError::internal(m)
}

/// What waiting for a scan notification gave.
#[derive(Clone, Copy, Debug, PartialEq, Eq, Structural)]
pub enum ScanWait {
    /// The scan completed.
    Complete,
    /// The scan failed with a WLAN reason code.
    Failed(u32),
    /// No notification came in time.
    TimedOut,
    /// The notification channel closed.
    Disconnected,
}

/// The outcome of a scan that waits for its notification: whether the list
/// was refreshed. A failed scan request is not waited for (`wait` is then not
/// read); a failure to unregister the notification fails an otherwise
/// successful wait.
pub fn scan_wait_result(
    scan: Result<(), PlatformError>,
    wait: ScanWait,
    unregister: Result<(), PlatformError>,
) -> (r: Result<bool, PlatformError>)
    ensures
        scan matches Err(e) ==> r == Err::<bool, PlatformError>(e),
        scan is Ok ==> match wait {
            ScanWait::Failed(reason) => r matches Err(e) && e.kind == PlatformErrorKind::Internal
                && e.message@ == "Native Wi-Fi scan failed with WLAN reason code "@ + dec(
                reason as nat,
            ) && !e.rolled_back,
            ScanWait::Disconnected => r matches Err(e) && e.kind == PlatformErrorKind::Internal
                && e.message@ == "Native Wi-Fi scan notification channel disconnected"@
                && !e.rolled_back,
            _ => match unregister {
                Err(e) => r == Err::<bool, PlatformError>(e),
                Ok(_) => r == Ok::<bool, PlatformError>(wait == ScanWait::Complete),
            },
        },
{
    match scan {
        Err(e) => Err(e),
        Ok(()) => match wait {
            ScanWait::Failed(reason) => {
                let mut m = owned("Native Wi-Fi scan failed with WLAN reason code ");
                let d = decimal(reason as u64);
                append(&mut m, d.as_str());
                Err(PlatformError::internal(m))
            },
            ScanWait::Disconnected => Err(
                PlatformError::internal(owned("Native Wi-Fi scan notification channel disconnected")),
            ),
            ScanWait::Complete => match unregister {
                Err(e) => Err(e),
                Ok(()) => Ok(true),
            },
            ScanWait::TimedOut => match unregister {
                Err(e) => Err(e),
                Ok(()) => Ok(false),
            },
        },
    }
}

/// The outcome of storing a profile: the call's status, then the reason
/// code with which the service rejected the profile.
pub fn set_profile_result(code: u32, reason: u32) -> (r: Result<(), PlatformError>)
    ensures
        code == 0 && reason == 0 ==> r is Ok,
        code != 0 ==> (r matches Err(e) && !e.rolled_back && if code == ERROR_RADIO_OFF {
            e.kind == PlatformErrorKind::Unsupported && e.message@ == "WlanSetProfile"@
                + " is unavailable because the Wi-Fi radio is off; turn on Wi-Fi and retry"@
        } else {
            e.kind == wlan_error_kind(code) && e.message@ == "WlanSetProfile"@
                + " failed with Windows error "@ + dec(code as nat)
        }),
        code == 0 && reason != 0 ==> (r matches Err(e) && e.kind == PlatformErrorKind::InvalidConfig
            && e.message@ == "WlanSetProfile rejected the profile with WLAN reason code "@ + dec(
            reason as nat,
        ) && !e.rolled_back),
{
    if code == 0 && reason == 0 {
        Ok(())
    } else if code != 0 {
        wlan_result("WlanSetProfile", code)
    } else {
        let mut m = owned("WlanSetProfile rejected the profile with WLAN reason code ");
        let d = decimal(reason as u64);
        append(&mut m, d.as_str());
        Err(PlatformError::invalid_config(m))
    }
}

/// Whether a profile lookup found no profile of that name.
pub fn profile_missing(code: u32) -> (r: bool)
    ensures
        r == (code == ERROR_NOT_FOUND),
{
    code == ERROR_NOT_FOUND
}

/// The outcome of deleting a profile: one that does not exist counts as deleted.
pub fn profile_deleted(code: u32) -> (r: Result<(), PlatformError>)
    ensures
        code == 0 || code == ERROR_NOT_FOUND ==> r is Ok,
        code != 0 && code != ERROR_NOT_FOUND ==> (r matches Err(e) && !e.rolled_back && if code
            == ERROR_RADIO_OFF {
            e.kind == PlatformErrorKind::Unsupported && e.message@ == "WlanDeleteProfile"@
                + " is unavailable because the Wi-Fi radio is off; turn on Wi-Fi and retry"@
        } else {
            e.kind == wlan_error_kind(code) && e.message@ == "WlanDeleteProfile"@
                + " failed with Windows error "@ + dec(code as nat)
        }),
{
    if code == ERROR_NOT_FOUND {
        Ok(())
    } else {
        wlan_result("WlanDeleteProfile", code)
    }
}

/// The refusal of a scan on an interface whose radio is off.
pub fn radio_off_scan() -> (r: Result<(), PlatformError>)
    ensures
        r matches Err(e) && e.kind == PlatformErrorKind::Unsupported && e.message@ == "WlanScan"@
            + " is unavailable because the Wi-Fi radio is off; turn on Wi-Fi and retry"@ && !e.rolled_back,
{
    wlan_result("WlanScan", ERROR_RADIO_OFF)
}

} // verus!
