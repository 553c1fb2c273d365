//! Human-readable rendering of daemon responses, lifecycle results and
//! errors for the command line.

use vstd::prelude::*;

use crate::cli::{error_code_name, error_code_text, lifecycle_mode_name, str_equal, LifecycleResult};
use crate::codec::views;
use crate::model::{
    AdapterInfo, AdapterView, Capability, CapabilityState, CapabilityView, WifiInterfaceStatus,
    WifiInterfaceView, WifiNetwork, WifiNetworkView,
};
use crate::output::{
    addresses_text, clean, clean_cell, format_addresses, key_values, key_values_text,
    option_string, option_text, pad, padded, pair_texts, push_wrapped_lines, record,
    record_list, record_list_text, record_text, wrapped_value, duration_text,
    format_duration,
};
use crate::plan::{join, texts, Operation, OperationRisk, OperationView};
use crate::protocol::{
    ErrorCode, JobState, JobSummary, JobSummaryView, Response, ResponseView, ValidationIssue,
    ValidationIssueView,
};
use crate::text::{append, chars_of, dec, decimal, owned};

verus! {

// ---------------------------------------------------------------------------
// Names of enumerated values
// ---------------------------------------------------------------------------

pub open spec fn yes_no_text(value: bool) -> Seq<char> {
    if value {
        "yes"@
    } else {
        "no"@
    }
}

/// `yes` or `no`.
pub fn yes_no(value: bool) -> (r: &'static str)
    ensures
        r@ == yes_no_text(value),
{
    if value {
        "yes"
    } else {
        "no"
    }
}

pub open spec fn capability_state_text(state: CapabilityState) -> Seq<char> {
    match state {
        CapabilityState::Unavailable => "unavailable"@,
        CapabilityState::ReadOnly => "read-only"@,
        CapabilityState::DryRun => "dry-run"@,
        CapabilityState::Available => "available"@,
    }
}

/// Display name of a capability state.
pub fn capability_state_name(state: CapabilityState) -> (r: &'static str)
    ensures
        r@ == capability_state_text(state),
{
    match state {
        CapabilityState::Unavailable => "unavailable",
        CapabilityState::ReadOnly => "read-only",
        CapabilityState::DryRun => "dry-run",
        CapabilityState::Available => "available",
    }
}

pub open spec fn job_state_text(state: JobState) -> Seq<char> {
    match state {
        JobState::Queued => "queued"@,
        JobState::Running => "running"@,
        JobState::Succeeded => "succeeded"@,
        JobState::Failed => "failed"@,
        JobState::RolledBack => "rolled-back"@,
    }
}

/// Display name of a job state.
pub fn job_state_name(state: JobState) -> (r: &'static str)
    ensures
        r@ == job_state_text(state),
{
    match state {
        JobState::Queued => "queued",
        JobState::Running => "running",
        JobState::Succeeded => "succeeded",
        JobState::Failed => "failed",
        JobState::RolledBack => "rolled-back",
    }
}

pub open spec fn operation_risk_text(risk: OperationRisk) -> Seq<char> {
    match risk {
        OperationRisk::ReadOnly => "read-only"@,
        OperationRisk::Low => "low"@,
        OperationRisk::Connectivity => "connectivity"@,
        OperationRisk::Destructive => "destructive"@,
    }
}

/// Display name of an operation risk.
pub fn operation_risk_name(risk: OperationRisk) -> (r: &'static str)
    ensures
        r@ == operation_risk_text(risk),
{
    match risk {
        OperationRisk::ReadOnly => "read-only",
        OperationRisk::Low => "low",
        OperationRisk::Connectivity => "connectivity",
        OperationRisk::Destructive => "destructive",
    }
}

// ---------------------------------------------------------------------------
// Small cells
// ---------------------------------------------------------------------------

/// The value, or `default` when there is none.
pub open spec fn or_text(value: Option<Seq<char>>, default: Seq<char>) -> Seq<char> {
    match value {
        Some(v) => v,
        None => default,
    }
}

/// Security of a Wi-Fi connection: `open`, `authentication/cipher` (with
/// `secured` and `unknown` for missing parts), or `-` when unknown.
pub open spec fn security_text(
    enabled: Option<bool>,
    authentication: Option<Seq<char>>,
    cipher: Option<Seq<char>>,
) -> Seq<char> {
    match enabled {
        Some(true) => or_text(authentication, "secured"@) + "/"@ + or_text(cipher, "unknown"@),
        Some(false) => "open"@,
        None => "-"@,
    }
}

fn or_string(value: &Option<String>, default: &str) -> (r: String)
    ensures
        r@ == or_text(value.deep_view(), default@),
{
    match value {
        Some(v) => v.clone(),
        None => owned(default),
    }
}

/// Renders the security of a Wi-Fi connection.
pub fn wifi_security(enabled: Option<bool>, authentication: &Option<String>, cipher: &Option<String>) -> (r: String)
    ensures
        r@ == security_text(enabled, authentication.deep_view(), cipher.deep_view()),
{
    match enabled {
        Some(true) => {
            let mut r = or_string(authentication, "secured");
            append(&mut r, "/");
            let c = or_string(cipher, "unknown");
            append(&mut r, c.as_str());
            r
        },
        Some(false) => owned("open"),
        None => owned("-"),
    }
}

pub open spec fn rate_text(rate: Option<u32>) -> Seq<char> {
    match rate {
        Some(v) => dec(v as nat),
        None => "-"@,
    }
}

/// Receive and transmit rates, or `-` when neither is known.
pub open spec fn rates_text(rx: Option<u32>, tx: Option<u32>) -> Seq<char> {
    if rx is None && tx is None {
        "-"@
    } else {
        rate_text(rx) + "/"@ + rate_text(tx) + " kbps"@
    }
}

fn rate_string(rate: Option<u32>) -> (r: String)
    ensures
        r@ == rate_text(rate),
{
    match rate {
        Some(v) => decimal(v as u64),
        None => owned("-"),
    }
}

/// Renders receive and transmit rates.
pub fn wifi_rates(rx_rate_kbps: Option<u32>, tx_rate_kbps: Option<u32>) -> (r: String)
    ensures
        r@ == rates_text(rx_rate_kbps, tx_rate_kbps),
{
    if rx_rate_kbps.is_none() && tx_rate_kbps.is_none() {
        return owned("-");
    }
    let mut r = rate_string(rx_rate_kbps);
    append(&mut r, "/");
    let t = rate_string(tx_rate_kbps);
    append(&mut r, t.as_str());
    append(&mut r, " kbps");
    r
}

/// A signal quality in percent, or `-`.
pub open spec fn signal_text(quality: Option<u8>) -> Seq<char> {
    match quality {
        Some(q) => dec(q as nat) + "%"@,
        None => "-"@,
    }
}

fn percent(q: u8) -> (r: String)
    ensures
        r@ == dec(q as nat) + "%"@,
{
    let mut r = decimal(q as u64);
    append(&mut r, "%");
    r
}

fn signal_string(quality: Option<u8>) -> (r: String)
    ensures
        r@ == signal_text(quality),
{
    match quality {
        Some(q) => percent(q),
        None => owned("-"),
    }
}

/// `title (count)`.
pub open spec fn counted(title: Seq<char>, count: nat) -> Seq<char> {
    title + " ("@ + dec(count) + ")"@
}

fn counted_title(title: &str, count: usize) -> (r: String)
    ensures
        r@ == counted(title@, count as nat),
{
    let mut r = owned(title);
    append(&mut r, " (");
    let d = decimal(count as u64);
    append(&mut r, d.as_str());
    append(&mut r, ")");
    r
}

fn pair(key: &str, value: String) -> (r: (String, String))
    ensures
        r.0@ == key@,
        r.1@ == value@,
{
    (owned(key), value)
}

// ---------------------------------------------------------------------------
// Capabilities
// ---------------------------------------------------------------------------

/// The longest capability name.
pub open spec fn name_width(caps: Seq<CapabilityView>) -> nat
    decreases caps.len(),
{
    if caps.len() == 0 {
        0
    } else {
        let w = name_width(caps.drop_last());
        if caps.last().name.len() > w {
            caps.last().name.len()
        } else {
            w
        }
    }
}

/// The name column: as wide as the longest name, at most 36 columns.
pub open spec fn name_column(caps: Seq<CapabilityView>) -> nat {
    if name_width(caps) < 36 {
        name_width(caps)
    } else {
        36
    }
}

/// One capability: its aligned name and state, then its reason, when there
/// is one, wrapped and indented below.
pub open spec fn capability_line(c: CapabilityView, width: nat) -> Seq<char> {
    "\n  "@ + pad(clean(c.name), width) + "  "@ + capability_state_text(c.state) + match c.reason {
        Some(r) => if r.len() > 0 {
            wrapped_value(r, "\n    "@, "\n    "@, 4)
        } else {
            Seq::empty()
        },
        None => Seq::empty(),
    }
}

pub open spec fn capability_lines(caps: Seq<CapabilityView>, width: nat) -> Seq<char>
    decreases caps.len(),
{
    if caps.len() == 0 {
        Seq::empty()
    } else {
        capability_lines(caps.drop_last(), width) + capability_line(caps.last(), width)
    }
}

/// The capability report.
pub open spec fn capabilities_text(caps: Seq<CapabilityView>) -> Seq<char> {
    if caps.len() == 0 {
        "Capabilities (0)\n  No capabilities reported."@
    } else {
        "Capabilities ("@ + dec(caps.len()) + ")"@ + capability_lines(caps, name_column(caps))
    }
}

/// Renders the capability report.
pub fn render_capabilities(capabilities: &Vec<Capability>) -> (r: String)
    ensures
        r@ == capabilities_text(views(capabilities@)),
{
    let ghost cs = views(capabilities@);
    let n = capabilities.len();
    if n == 0 {
        return owned("Capabilities (0)\n  No capabilities reported.");
    }
    let mut width: usize = 0;
    for i in 0..n
        invariant
            n == capabilities@.len(),
            cs == views(capabilities@),
            width as nat == name_width(cs.take(i as int)),
    {
        proof {
            assert(cs.take(i + 1).drop_last() =~= cs.take(i as int));
            assert(cs.take(i + 1).last() == capabilities@[i as int]@);
        }
        let k = chars_of(capabilities[i].name.as_str()).len();
        if k > width {
            width = k;
        }
    }
    proof {
        assert(cs.take(n as int) =~= cs);
    }
    if width > 36 {
        width = 36;
    }
    let mut out = owned("Capabilities (");
    let d = decimal(n as u64);
    append(&mut out, d.as_str());
    append(&mut out, ")");
    let ghost head = out@;
    for i in 0..n
        invariant
            n == capabilities@.len(),
            cs == views(capabilities@),
            width as nat == name_column(cs),
            out@ == head + capability_lines(cs.take(i as int), width as nat),
    {
        proof {
            assert(cs.take(i + 1).drop_last() =~= cs.take(i as int));
            assert(cs.take(i + 1).last() == capabilities@[i as int]@);
        }
        let c = &capabilities[i];
        append(&mut out, "\n  ");
        let name = clean_cell(c.name.as_str());
        let cell = padded(name.as_str(), width);
        append(&mut out, cell.as_str());
        append(&mut out, "  ");
        append(&mut out, capability_state_name(c.state));
        match &c.reason {
            Some(reason) => {
                if !reason.as_str().is_empty() {
                    push_wrapped_lines(&mut out, reason.as_str(), "\n    ", "\n    ", 4);
                }
            },
            None => {},
        }
        proof {
            assert(out@ =~= head + capability_lines(cs.take(i + 1), width as nat));
        }
    }
    proof {
        assert(cs.take(n as int) =~= cs);
    }
    out
}


// ---------------------------------------------------------------------------
// Adapters and Wi-Fi
// ---------------------------------------------------------------------------

/// `[index] name`.
pub open spec fn indexed_title(if_index: u32, name: Seq<char>) -> Seq<char> {
    "["@ + dec(if_index as nat) + "] "@ + name
}

fn indexed(if_index: u32, name: &str) -> (r: String)
    ensures
        r@ == indexed_title(if_index, name@),
{
    let mut r = owned("[");
    let d = decimal(if_index as u64);
    append(&mut r, d.as_str());
    append(&mut r, "] ");
    append(&mut r, name);
    r
}

pub open spec fn kind_text(hardware: bool) -> Seq<char> {
    if hardware {
        "physical"@
    } else {
        "virtual"@
    }
}

pub open spec fn adapter_pairs(a: AdapterView) -> Seq<(Seq<char>, Seq<char>)> {
    seq![
        ("Status"@, a.status),
        ("Kind"@, kind_text(a.hardware)),
        ("MAC"@, option_text(a.mac_address)),
        ("IPv4"@, addresses_text(a.ipv4)),
        ("IPv6"@, addresses_text(a.ipv6)),
        ("Description"@, option_text(a.description)),
    ]
}

/// The card of one adapter.
pub open spec fn adapter_record(a: AdapterView) -> Seq<char> {
    record_text(indexed_title(a.if_index, a.name), adapter_pairs(a))
}

/// The adapter inventory as a list of cards.
pub open spec fn adapters_text(adapters: Seq<AdapterView>) -> Seq<char> {
    record_list_text(
        counted("Adapters"@, adapters.len()),
        adapters.map_values(|a: AdapterView| adapter_record(a)),
        "No adapters reported."@,
    )
}

fn adapter_card(a: &AdapterInfo) -> (r: String)
    ensures
        r@ == adapter_record(a@),
{
    let title = indexed(a.if_index, a.name.as_str());
    let mut pairs: Vec<(String, String)> = Vec::new();
    pairs.push(pair("Status", a.status.clone()));
    pairs.push(pair("Kind", owned(if a.hardware { "physical" } else { "virtual" })));
    pairs.push(pair("MAC", option_string(&a.mac_address)));
    pairs.push(pair("IPv4", format_addresses(&a.ipv4)));
    pairs.push(pair("IPv6", format_addresses(&a.ipv6)));
    pairs.push(pair("Description", option_string(&a.description)));
    proof {
        assert(pair_texts(pairs@) =~= adapter_pairs(a@));
    }
    record(title.as_str(), &pairs)
}

/// Renders the adapter inventory.
pub fn render_adapters(adapters: &Vec<AdapterInfo>) -> (r: String)
    ensures
        r@ == adapters_text(views(adapters@)),
{
    let ghost vs = views(adapters@);
    let ghost f = |a: AdapterView| adapter_record(a);
    let n = adapters.len();
    let mut records: Vec<String> = Vec::new();
    for i in 0..n
        invariant
            n == adapters@.len(),
            vs == views(adapters@),
            f == (|a: AdapterView| adapter_record(a)),
            texts(records@) =~= vs.take(i as int).map_values(f),
    {
        let card = adapter_card(&adapters[i]);
        let ghost prev = texts(records@);
        records.push(card);
        proof {
            assert(texts(records@) =~= prev.push(card@));
            assert(vs.take(i + 1).map_values(f) =~= vs.take(i as int).map_values(f).push(f(vs[i as int])));
        }
    }
    proof {
        assert(vs.take(n as int) =~= vs);
    }
    let title = counted_title("Adapters", n);
    record_list(title.as_str(), &records, "No adapters reported.")
}

pub open spec fn interface_pairs(w: WifiInterfaceView) -> Seq<(Seq<char>, Seq<char>)> {
    seq![
        ("State"@, w.state),
        ("SSID"@, option_text(w.ssid)),
        ("Signal"@, signal_text(w.signal_quality)),
        ("Security"@, security_text(w.security_enabled, w.authentication, w.cipher)),
        ("Profile"@, option_text(w.profile_name)),
        ("RX/TX"@, rates_text(w.rx_rate_kbps, w.tx_rate_kbps)),
    ]
}

/// The card of one Wi-Fi interface.
pub open spec fn interface_record(w: WifiInterfaceView) -> Seq<char> {
    record_text(indexed_title(w.if_index, w.name), interface_pairs(w))
}

/// The Wi-Fi interfaces as a list of cards.
pub open spec fn interfaces_text(interfaces: Seq<WifiInterfaceView>) -> Seq<char> {
    record_list_text(
        counted("Wi-Fi interfaces"@, interfaces.len()),
        interfaces.map_values(|w: WifiInterfaceView| interface_record(w)),
        "No Wi-Fi interfaces reported."@,
    )
}

fn interface_card(w: &WifiInterfaceStatus) -> (r: String)
    ensures
        r@ == interface_record(w@),
{
    let title = indexed(w.if_index, w.name.as_str());
    let mut pairs: Vec<(String, String)> = Vec::new();
    pairs.push(pair("State", w.state.clone()));
    pairs.push(pair("SSID", option_string(&w.ssid)));
    pairs.push(pair("Signal", signal_string(w.signal_quality)));
    pairs.push(pair("Security", wifi_security(w.security_enabled, &w.authentication, &w.cipher)));
    pairs.push(pair("Profile", option_string(&w.profile_name)));
    pairs.push(pair("RX/TX", wifi_rates(w.rx_rate_kbps, w.tx_rate_kbps)));
    proof {
        assert(pair_texts(pairs@) =~= interface_pairs(w@));
    }
    record(title.as_str(), &pairs)
}

/// Renders the Wi-Fi interfaces.
pub fn render_wifi_interfaces(interfaces: &Vec<WifiInterfaceStatus>) -> (r: String)
    ensures
        r@ == interfaces_text(views(interfaces@)),
{
    let ghost vs = views(interfaces@);
    let ghost f = |w: WifiInterfaceView| interface_record(w);
    let n = interfaces.len();
    let mut records: Vec<String> = Vec::new();
    for i in 0..n
        invariant
            n == interfaces@.len(),
            vs == views(interfaces@),
            f == (|w: WifiInterfaceView| interface_record(w)),
            texts(records@) =~= vs.take(i as int).map_values(f),
    {
        let card = interface_card(&interfaces[i]);
        let ghost prev = texts(records@);
        records.push(card);
        proof {
            assert(texts(records@) =~= prev.push(card@));
            assert(vs.take(i + 1).map_values(f) =~= vs.take(i as int).map_values(f).push(f(vs[i as int])));
        }
    }
    proof {
        assert(vs.take(n as int) =~= vs);
    }
    let title = counted_title("Wi-Fi interfaces", n);
    record_list(title.as_str(), &records, "No Wi-Fi interfaces reported.")
}

/// Flags of a scanned network: connected, saved, blocked.
pub open spec fn network_flags(n: WifiNetworkView) -> Seq<Seq<char>> {
    (if n.connected {
        seq!["connected"@]
    } else {
        Seq::empty()
    }) + (if n.profile_name is Some {
        seq!["saved"@]
    } else {
        Seq::empty()
    }) + (if !n.connectable {
        seq!["blocked"@]
    } else {
        Seq::empty()
    })
}

pub open spec fn flags_text(flags: Seq<Seq<char>>) -> Seq<char> {
    if flags.len() == 0 {
        "-"@
    } else {
        join(flags, ", "@)
    }
}

pub open spec fn network_title(n: WifiNetworkView) -> Seq<char> {
    if n.ssid.len() == 0 {
        "<hidden network>"@
    } else {
        n.ssid
    }
}

pub open spec fn network_pairs(n: WifiNetworkView) -> Seq<(Seq<char>, Seq<char>)> {
    seq![
        ("Signal"@, dec(n.signal_quality as nat) + "%"@),
        ("Security"@, if n.security_enabled {
            n.authentication + "/"@ + n.cipher
        } else {
            "open"@
        }),
        ("Interface"@, n.interface_name + " ["@ + dec(n.interface_if_index as nat) + "]"@),
        ("Flags"@, flags_text(network_flags(n))),
    ]
}

/// The card of one scanned network.
pub open spec fn network_record(n: WifiNetworkView) -> Seq<char> {
    record_text(network_title(n), network_pairs(n))
}

/// A scan result: a summary block, then the networks as cards.
pub open spec fn networks_text(refreshed: bool, networks: Seq<WifiNetworkView>) -> Seq<char> {
    key_values_text(
        "Wi-Fi networks"@,
        seq![("Scan refreshed"@, yes_no_text(refreshed)), ("Networks"@, dec(networks.len()))],
    ) + "\n\n"@ + record_list_text(
        "Network details"@,
        networks.map_values(|n: WifiNetworkView| network_record(n)),
        "No Wi-Fi networks reported."@,
    )
}

fn flags_string(n: &WifiNetwork) -> (r: String)
    ensures
        r@ == flags_text(network_flags(n@)),
{
    let mut flags: Vec<String> = Vec::new();
    if n.connected {
        flags.push(owned("connected"));
    }
    let ghost a = texts(flags@);
    if n.profile_name.is_some() {
        flags.push(owned("saved"));
    }
    let ghost b = texts(flags@);
    if !n.connectable {
        flags.push(owned("blocked"));
    }
    proof {
        assert(a =~= (if n.connected { seq!["connected"@] } else { Seq::<Seq<char>>::empty() }));
        assert(b =~= a + (if n@.profile_name is Some { seq!["saved"@] } else { Seq::<Seq<char>>::empty() }));
        assert(texts(flags@) =~= network_flags(n@));
    }
    if flags.len() == 0 {
        owned("-")
    } else {
        crate::output::join_lines(&flags, ", ")
    }
}

fn network_card(n: &WifiNetwork) -> (r: String)
    ensures
        r@ == network_record(n@),
{
    let title = if n.ssid.as_str().is_empty() {
        owned("<hidden network>")
    } else {
        n.ssid.clone()
    };
    let mut pairs: Vec<(String, String)> = Vec::new();
    pairs.push(pair("Signal", percent(n.signal_quality)));
    let security = if n.security_enabled {
        let mut s = n.authentication.clone();
        append(&mut s, "/");
        append(&mut s, n.cipher.as_str());
        s
    } else {
        owned("open")
    };
    pairs.push(pair("Security", security));
    let mut iface = n.interface_name.clone();
    append(&mut iface, " [");
    let d = decimal(n.interface_if_index as u64);
    append(&mut iface, d.as_str());
    append(&mut iface, "]");
    pairs.push(pair("Interface", iface));
    pairs.push(pair("Flags", flags_string(n)));
    proof {
        assert(pair_texts(pairs@) =~= network_pairs(n@));
    }
    record(title.as_str(), &pairs)
}

/// Renders a Wi-Fi scan result.
pub fn render_wifi_networks(refreshed: bool, networks: &Vec<WifiNetwork>) -> (r: String)
    ensures
        r@ == networks_text(refreshed, views(networks@)),
{
    let ghost vs = views(networks@);
    let ghost f = |w: WifiNetworkView| network_record(w);
    let n = networks.len();
    let mut records: Vec<String> = Vec::new();
    for i in 0..n
        invariant
            n == networks@.len(),
            vs == views(networks@),
            f == (|w: WifiNetworkView| network_record(w)),
            texts(records@) =~= vs.take(i as int).map_values(f),
    {
        let card = network_card(&networks[i]);
        let ghost prev = texts(records@);
        records.push(card);
        proof {
            assert(texts(records@) =~= prev.push(card@));
            assert(vs.take(i + 1).map_values(f) =~= vs.take(i as int).map_values(f).push(f(vs[i as int])));
        }
    }
    proof {
        assert(vs.take(n as int) =~= vs);
    }
    let mut summary: Vec<(String, String)> = Vec::new();
    summary.push(pair("Scan refreshed", owned(yes_no(refreshed))));
    summary.push(pair("Networks", decimal(n as u64)));
    proof {
        assert(pair_texts(summary@) =~= seq![("Scan refreshed"@, yes_no_text(refreshed)), ("Networks"@, dec(vs.len()))]);
    }
    let mut out = key_values("Wi-Fi networks", &summary);
    append(&mut out, "\n\n");
    let list = record_list("Network details", &records, "No Wi-Fi networks reported.");
    append(&mut out, list.as_str());
    out
}


// ---------------------------------------------------------------------------
// Validation, plans and jobs
// ---------------------------------------------------------------------------

/// The card of one validation diagnostic, titled by its path.
pub open spec fn issue_record(i: ValidationIssueView) -> Seq<char> {
    record_text(or_text(i.path, "<document>"@), seq![("Message"@, i.message)])
}

/// A validation result: `valid` with no issues, or `invalid` and the
/// diagnostics as cards.
pub open spec fn validation_text(valid: bool, issues: Seq<ValidationIssueView>) -> Seq<char> {
    if valid {
        key_values_text(
            "Configuration validation"@,
            seq![("Status"@, "valid"@), ("Issues"@, "0"@)],
        )
    } else {
        key_values_text(
            "Configuration validation"@,
            seq![("Status"@, "invalid"@), ("Issues"@, dec(issues.len()))],
        ) + "\n\n"@ + record_list_text(
            "Diagnostics"@,
            issues.map_values(|i: ValidationIssueView| issue_record(i)),
            "No diagnostics reported."@,
        )
    }
}

fn issue_card(i: &ValidationIssue) -> (r: String)
    ensures
        r@ == issue_record(i@),
{
    let title = or_string(&i.path, "<document>");
    let mut pairs: Vec<(String, String)> = Vec::new();
    pairs.push(pair("Message", i.message.clone()));
    proof {
        assert(pair_texts(pairs@) =~= seq![("Message"@, i@.message)]);
    }
    record(title.as_str(), &pairs)
}

/// Renders a validation result.
pub fn render_validation(valid: bool, issues: &Vec<ValidationIssue>) -> (r: String)
    ensures
        r@ == validation_text(valid, views(issues@)),
{
    let mut summary: Vec<(String, String)> = Vec::new();
    if valid {
        summary.push(pair("Status", owned("valid")));
        summary.push(pair("Issues", owned("0")));
        proof {
            assert(pair_texts(summary@) =~= seq![("Status"@, "valid"@), ("Issues"@, "0"@)]);
        }
        return key_values("Configuration validation", &summary);
    }
    let ghost vs = views(issues@);
    let ghost f = |i: ValidationIssueView| issue_record(i);
    let n = issues.len();
    let mut records: Vec<String> = Vec::new();
    for i in 0..n
        invariant
            n == issues@.len(),
            vs == views(issues@),
            f == (|i: ValidationIssueView| issue_record(i)),
            texts(records@) =~= vs.take(i as int).map_values(f),
    {
        let card = issue_card(&issues[i]);
        let ghost prev = texts(records@);
        records.push(card);
        proof {
            assert(texts(records@) =~= prev.push(card@));
            assert(vs.take(i + 1).map_values(f) =~= vs.take(i as int).map_values(f).push(f(vs[i as int])));
        }
    }
    proof {
        assert(vs.take(n as int) =~= vs);
    }
    summary.push(pair("Status", owned("invalid")));
    summary.push(pair("Issues", decimal(n as u64)));
    proof {
        assert(pair_texts(summary@) =~= seq![("Status"@, "invalid"@), ("Issues"@, dec(vs.len()))]);
    }
    let mut out = key_values("Configuration validation", &summary);
    append(&mut out, "\n\n");
    let list = record_list("Diagnostics", &records, "No diagnostics reported.");
    append(&mut out, list.as_str());
    out
}

/// The card of the operation at `index` (counted from zero, shown from one).
pub open spec fn operation_record(index: nat, op: OperationView) -> Seq<char> {
    record_text(
        dec(index + 1) + ". "@ + op.summary,
        seq![
            ("Risk"@, operation_risk_text(op.risk)),
            ("Capability"@, op.capability),
            ("Target"@, option_text(op.target)),
        ],
    )
}

pub open spec fn operation_records(ops: Seq<OperationView>) -> Seq<Seq<char>> {
    Seq::new(ops.len(), |i: int| operation_record(i as nat, ops[i]))
}

/// A numbered list of operations under `title`.
pub open spec fn operations_text(title: Seq<char>, ops: Seq<OperationView>) -> Seq<char> {
    record_list_text(counted(title, ops.len()), operation_records(ops), "No operations required."@)
}

fn operation_card(index: usize, op: &Operation) -> (r: String)
    requires
        index < usize::MAX,
    ensures
        r@ == operation_record(index as nat, op@),
{
    let mut title = decimal((index + 1) as u64);
    append(&mut title, ". ");
    append(&mut title, op.summary.as_str());
    let mut pairs: Vec<(String, String)> = Vec::new();
    pairs.push(pair("Risk", owned(operation_risk_name(op.risk))));
    pairs.push(pair("Capability", op.capability.clone()));
    pairs.push(pair("Target", option_string(&op.target)));
    proof {
        assert(pair_texts(pairs@) =~= seq![
            ("Risk"@, operation_risk_text(op@.risk)),
            ("Capability"@, op@.capability),
            ("Target"@, option_text(op@.target)),
        ]);
    }
    record(title.as_str(), &pairs)
}

/// Renders a numbered list of operations.
pub fn render_operations(title: &str, operations: &Vec<Operation>) -> (r: String)
    ensures
        r@ == operations_text(title@, views(operations@)),
{
    let ghost vs = views(operations@);
    let n = operations.len();
    let mut records: Vec<String> = Vec::new();
    for i in 0..n
        invariant
            n == operations@.len(),
            vs == views(operations@),
            texts(records@) =~= operation_records(vs).take(i as int),
    {
        let card = operation_card(i, &operations[i]);
        let ghost prev = texts(records@);
        records.push(card);
        proof {
            assert(texts(records@) =~= prev.push(card@));
            assert(operation_records(vs).take(i + 1) =~= operation_records(vs).take(i as int).push(card@));
        }
    }
    proof {
        assert(operation_records(vs).take(n as int) =~= operation_records(vs));
    }
    let t = counted_title(title, n);
    record_list(t.as_str(), &records, "No operations required.")
}

/// The card of one listed job.
pub open spec fn job_record(j: JobSummaryView) -> Seq<char> {
    record_text(
        j.job_id,
        seq![
            ("State"@, job_state_text(j.state)),
            ("Created (ms)"@, dec(j.created_at_unix_ms as nat)),
            ("Updated (ms)"@, dec(j.updated_at_unix_ms as nat)),
            ("Message"@, option_text(j.message)),
        ],
    )
}

/// A job listing: how many matched and how many are shown, then the jobs as
/// cards.
pub open spec fn jobs_text(jobs: Seq<JobSummaryView>, total: u32) -> Seq<char> {
    key_values_text(
        "Jobs"@,
        seq![("Matching"@, dec(total as nat)), ("Displayed"@, dec(jobs.len()))],
    ) + "\n\n"@ + record_list_text(
        "Job details"@,
        jobs.map_values(|j: JobSummaryView| job_record(j)),
        "No jobs matched the query."@,
    )
}

fn job_card(j: &JobSummary) -> (r: String)
    ensures
        r@ == job_record(j@),
{
    let mut pairs: Vec<(String, String)> = Vec::new();
    pairs.push(pair("State", owned(job_state_name(j.state))));
    pairs.push(pair("Created (ms)", decimal(j.created_at_unix_ms)));
    pairs.push(pair("Updated (ms)", decimal(j.updated_at_unix_ms)));
    pairs.push(pair("Message", option_string(&j.message)));
    proof {
        assert(pair_texts(pairs@) =~= seq![
            ("State"@, job_state_text(j@.state)),
            ("Created (ms)"@, dec(j@.created_at_unix_ms as nat)),
            ("Updated (ms)"@, dec(j@.updated_at_unix_ms as nat)),
            ("Message"@, option_text(j@.message)),
        ]);
    }
    record(j.job_id.as_str(), &pairs)
}

/// Renders a job listing.
pub fn render_jobs(jobs: &Vec<JobSummary>, total: u32) -> (r: String)
    ensures
        r@ == jobs_text(views(jobs@), total),
{
    let ghost vs = views(jobs@);
    let ghost f = |j: JobSummaryView| job_record(j);
    let n = jobs.len();
    let mut records: Vec<String> = Vec::new();
    for i in 0..n
        invariant
            n == jobs@.len(),
            vs == views(jobs@),
            f == (|j: JobSummaryView| job_record(j)),
            texts(records@) =~= vs.take(i as int).map_values(f),
    {
        let card = job_card(&jobs[i]);
        let ghost prev = texts(records@);
        records.push(card);
        proof {
            assert(texts(records@) =~= prev.push(card@));
            assert(vs.take(i + 1).map_values(f) =~= vs.take(i as int).map_values(f).push(f(vs[i as int])));
        }
    }
    proof {
        assert(vs.take(n as int) =~= vs);
    }
    let mut summary: Vec<(String, String)> = Vec::new();
    summary.push(pair("Matching", decimal(total as u64)));
    summary.push(pair("Displayed", decimal(n as u64)));
    proof {
        assert(pair_texts(summary@) =~= seq![("Matching"@, dec(total as nat)), ("Displayed"@, dec(vs.len()))]);
    }
    let mut out = key_values("Jobs", &summary);
    append(&mut out, "\n\n");
    let list = record_list("Job details", &records, "No jobs matched the query.");
    append(&mut out, list.as_str());
    out
}


// ---------------------------------------------------------------------------
// Whole responses, lifecycle results and errors
// ---------------------------------------------------------------------------

/// How one-shot output is written.
#[derive(Clone, Copy, Debug, PartialEq, Eq, Structural)]
pub enum OutputFormat {
    /// Aligned, wrapped text for people.
    Human,
    /// JSON for scripts.
    Json,
}

impl OutputFormat {
    /// JSON when asked for, text otherwise.
    pub fn from_json(json: bool) -> (r: Self)
        ensures
            r == (if json {
                OutputFormat::Json
            } else {
                OutputFormat::Human
            }),
    {
        if json {
            OutputFormat::Json
        } else {
            OutputFormat::Human
        }
    }
}

/// A failure reported by the command line: a stable code and a message.
#[derive(Debug, PartialEq, Eq)]
pub struct CliError {
    /// `cli_error` for failures of the command line itself, else the
    /// daemon's error code.
    pub code: &'static str,
    /// Human-readable diagnostic.
    pub message: String,
}

/// How an error reads: the message alone for failures of the command line
/// itself, else `code: message`.
pub open spec fn error_text(code: Seq<char>, message: Seq<char>) -> Seq<char> {
    if code == "cli_error"@ {
        message
    } else {
        code + ": "@ + message
    }
}

impl CliError {
    /// A daemon rejection, keeping the daemon's stable code.
    pub fn daemon(code: ErrorCode, message: String) -> (r: Self)
        ensures
            r.code@ == error_code_text(code),
            r.message == message,
    {
        CliError { code: error_code_name(code), message }
    }

    /// A failure of the command line itself.
    pub fn from_message(message: String) -> (r: Self)
        ensures
            r.code@ == "cli_error"@,
            r.message == message,
    {
        CliError { code: "cli_error", message }
    }

    /// The error as text.
    pub fn text(&self) -> (r: String)
        ensures
            r@ == error_text(self.code@, self.message@),
    {
        if str_equal(self.code, "cli_error") {
            self.message.clone()
        } else {
            let mut r = owned(self.code);
            append(&mut r, ": ");
            append(&mut r, self.message.as_str());
            r
        }
    }
}

impl From<String> for CliError {
    fn from(message: String) -> (r: Self) {
        CliError { code: "cli_error", message }
    }
}

impl vstd::std_specs::convert::FromSpecImpl<String> for CliError {
    open spec fn obeys_from_spec() -> bool {
        true
    }

    open spec fn from_spec(message: String) -> Self {
        CliError { code: "cli_error", message }
    }
}

/// Renders an error for people: `netplan: ` and the error.
pub fn render_error_human(error: &CliError) -> (r: String)
    ensures
        r@ == "netplan: "@ + error_text(error.code@, error.message@),
{
    let mut r = owned("netplan: ");
    let t = error.text();
    append(&mut r, t.as_str());
    r
}

/// Display name of a lifecycle mode.
pub open spec fn mode_text(mode: Seq<char>) -> Seq<char> {
    if mode == "windows-service"@ {
        "Windows service"@
    } else if mode == "background-process"@ {
        "Background process"@
    } else {
        mode
    }
}

/// The lifecycle block: action, mode, installation, state and details.
pub open spec fn lifecycle_text(
    action: Seq<char>,
    mode: Seq<char>,
    installed: bool,
    state: Seq<char>,
    message: Seq<char>,
) -> Seq<char> {
    key_values_text(
        "PE Netplan daemon"@,
        seq![
            ("Action"@, action),
            ("Mode"@, mode_text(mode)),
            ("Installed"@, yes_no_text(installed)),
            ("State"@, state),
            ("Details"@, message),
        ],
    )
}

/// Renders the result of a lifecycle command for people.
pub fn render_lifecycle_human(result: &LifecycleResult) -> (r: String)
    ensures
        r@ == lifecycle_text(result.action@, result.mode@, result.installed, result.state@, result.message@),
{
    let mut pairs: Vec<(String, String)> = Vec::new();
    pairs.push(pair("Action", owned(result.action)));
    pairs.push(pair("Mode", lifecycle_mode_name(result.mode)));
    pairs.push(pair("Installed", owned(yes_no(result.installed))));
    pairs.push(pair("State", owned(result.state)));
    pairs.push(pair("Details", result.message.clone()));
    proof {
        assert(pair_texts(pairs@) =~= seq![
            ("Action"@, result.action@),
            ("Mode"@, mode_text(result.mode@)),
            ("Installed"@, yes_no_text(result.installed)),
            ("State"@, result.state@),
            ("Details"@, result.message@),
        ]);
    }
    key_values("PE Netplan daemon", &pairs)
}

/// The human-readable form of every response but a rejection.
pub open spec fn human_text(r: ResponseView) -> Seq<char> {
    match r {
        ResponseView::Pong { daemon_version, protocol_version } => key_values_text(
            "PE Netplan daemon is ready"@,
            seq![("Daemon version"@, daemon_version), ("Protocol version"@, dec(protocol_version as nat))],
        ),
        ResponseView::DaemonStatus {
            daemon_version,
            protocol_version,
            started_at_unix_ms,
            uptime_ms,
            total_jobs,
            queued_jobs,
            running_jobs,
            succeeded_jobs,
            failed_jobs,
            rolled_back_jobs,
        } => key_values_text(
            "Daemon"@,
            seq![
                ("Version"@, daemon_version),
                ("Protocol"@, dec(protocol_version as nat)),
                ("Started (Unix ms)"@, dec(started_at_unix_ms as nat)),
                ("Uptime"@, duration_text(uptime_ms)),
            ],
        ) + "\n\n"@ + key_values_text(
            "Jobs"@,
            seq![
                ("Total"@, dec(total_jobs as nat)),
                ("Queued"@, dec(queued_jobs as nat)),
                ("Running"@, dec(running_jobs as nat)),
                ("Succeeded"@, dec(succeeded_jobs as nat)),
                ("Failed"@, dec(failed_jobs as nat)),
                ("Rolled back"@, dec(rolled_back_jobs as nat)),
            ],
        ),
        ResponseView::Capabilities(caps) => capabilities_text(caps),
        ResponseView::Adapters(adapters) => adapters_text(adapters),
        ResponseView::NetworkStatus { captured_at_unix_ms, adapters, wifi_interfaces, wifi_error } =>
            key_values_text(
                "Network status"@,
                seq![("Captured (Unix ms)"@, dec(captured_at_unix_ms as nat))],
            ) + "\n\n"@ + adapters_text(adapters) + "\n\n"@ + interfaces_text(wifi_interfaces)
                + match wifi_error {
                Some(e) => "\n\n"@ + key_values_text("Wi-Fi warning"@, seq![("Details"@, e)]),
                None => Seq::empty(),
            },
        ResponseView::WifiStatus(interfaces) => interfaces_text(interfaces),
        ResponseView::WifiNetworks { refreshed, networks } => networks_text(refreshed, networks),
        ResponseView::Validation { valid, issues } => validation_text(valid, issues),
        ResponseView::Plan(ops) => operations_text("Plan"@, ops),
        ResponseView::Apply { job_id, state, operations } => key_values_text(
            "Apply job accepted"@,
            seq![("Job ID"@, job_id), ("State"@, job_state_text(state))],
        ) + "\n\n"@ + operations_text("Planned operations"@, operations),
        ResponseView::JobStatus { job_id, state, message } => key_values_text(
            "Job status"@,
            seq![("Job ID"@, job_id), ("State"@, job_state_text(state)), ("Message"@, option_text(message))],
        ),
        ResponseView::Jobs { jobs, total } => jobs_text(jobs, total),
        ResponseView::Error { .. } => Seq::empty(),
    }
}

fn two_sections(a: String, b: &str) -> (r: String)
    ensures
        r@ == a@ + "\n\n"@ + b@,
{
    let mut r = a;
    append(&mut r, "\n\n");
    append(&mut r, b);
    r
}

/// Renders a response for people. A daemon rejection becomes an error that
/// keeps the daemon's code and message; every other response renders.
pub fn render_human(response: Response) -> (r: Result<String, CliError>)
    ensures
        match r {
            Ok(t) => !(response@ is Error) && t@ == human_text(response@),
            Err(e) => response@ matches ResponseView::Error { code, message } && e.code@
                == error_code_text(code) && e.message@ == message,
        },
{
    let ghost v = response@;
    match response {
        Response::Pong { daemon_version, protocol_version } => {
            let mut pairs: Vec<(String, String)> = Vec::new();
            pairs.push(pair("Daemon version", daemon_version));
            pairs.push(pair("Protocol version", decimal(protocol_version as u64)));
            proof {
                assert(pair_texts(pairs@) =~= seq![("Daemon version"@, v->Pong_daemon_version), ("Protocol version"@, dec(v->Pong_protocol_version as nat))]);
            }
            Ok(key_values("PE Netplan daemon is ready", &pairs))
        },
        Response::DaemonStatus {
            daemon_version,
            protocol_version,
            started_at_unix_ms,
            uptime_ms,
            total_jobs,
            queued_jobs,
            running_jobs,
            succeeded_jobs,
            failed_jobs,
            rolled_back_jobs,
        } => {
            let mut daemon: Vec<(String, String)> = Vec::new();
            daemon.push(pair("Version", daemon_version));
            daemon.push(pair("Protocol", decimal(protocol_version as u64)));
            daemon.push(pair("Started (Unix ms)", decimal(started_at_unix_ms)));
            daemon.push(pair("Uptime", format_duration(uptime_ms)));
            let mut jobs: Vec<(String, String)> = Vec::new();
            jobs.push(pair("Total", decimal(total_jobs as u64)));
            jobs.push(pair("Queued", decimal(queued_jobs as u64)));
            jobs.push(pair("Running", decimal(running_jobs as u64)));
            jobs.push(pair("Succeeded", decimal(succeeded_jobs as u64)));
            jobs.push(pair("Failed", decimal(failed_jobs as u64)));
            jobs.push(pair("Rolled back", decimal(rolled_back_jobs as u64)));
            proof {
                assert(pair_texts(daemon@) =~= seq![
                    ("Version"@, v->DaemonStatus_daemon_version),
                    ("Protocol"@, dec(protocol_version as nat)),
                    ("Started (Unix ms)"@, dec(started_at_unix_ms as nat)),
                    ("Uptime"@, duration_text(uptime_ms)),
                ]);
                assert(pair_texts(jobs@) =~= seq![
                    ("Total"@, dec(total_jobs as nat)),
                    ("Queued"@, dec(queued_jobs as nat)),
                    ("Running"@, dec(running_jobs as nat)),
                    ("Succeeded"@, dec(succeeded_jobs as nat)),
                    ("Failed"@, dec(failed_jobs as nat)),
                    ("Rolled back"@, dec(rolled_back_jobs as nat)),
                ]);
            }
            let second = key_values("Jobs", &jobs);
            Ok(two_sections(key_values("Daemon", &daemon), second.as_str()))
        },
        Response::Capabilities(capabilities) => Ok(render_capabilities(&capabilities)),
        Response::Adapters(adapters) => Ok(render_adapters(&adapters)),
        Response::NetworkStatus { captured_at_unix_ms, adapters, wifi_interfaces, wifi_error } => {
            let mut head: Vec<(String, String)> = Vec::new();
            head.push(pair("Captured (Unix ms)", decimal(captured_at_unix_ms)));
            proof {
                assert(pair_texts(head@) =~= seq![("Captured (Unix ms)"@, dec(captured_at_unix_ms as nat))]);
            }
            let a = render_adapters(&adapters);
            let w = render_wifi_interfaces(&wifi_interfaces);
            let mut out = two_sections(key_values("Network status", &head), a.as_str());
            out = two_sections(out, w.as_str());
            match wifi_error {
                Some(error) => {
                    let ghost ev = error@;
                    let mut warning: Vec<(String, String)> = Vec::new();
                    warning.push(pair("Details", error));
                    proof {
                        assert(pair_texts(warning@) =~= seq![("Details"@, ev)]);
                    }
                    let k = key_values("Wi-Fi warning", &warning);
                    out = two_sections(out, k.as_str());
                },
                None => {},
            }
            Ok(out)
        },
        Response::WifiStatus(interfaces) => Ok(render_wifi_interfaces(&interfaces)),
        Response::WifiNetworks { refreshed, networks } => Ok(render_wifi_networks(refreshed, &networks)),
        Response::Validation { valid, issues } => Ok(render_validation(valid, &issues)),
        Response::Plan(operations) => Ok(render_operations("Plan", &operations)),
        Response::Apply { job_id, state, operations } => {
            let mut head: Vec<(String, String)> = Vec::new();
            head.push(pair("Job ID", job_id));
            head.push(pair("State", owned(job_state_name(state))));
            proof {
                assert(pair_texts(head@) =~= seq![("Job ID"@, v->Apply_job_id), ("State"@, job_state_text(state))]);
            }
            let ops = render_operations("Planned operations", &operations);
            Ok(two_sections(key_values("Apply job accepted", &head), ops.as_str()))
        },
        Response::JobStatus { job_id, state, message } => {
            let mut pairs: Vec<(String, String)> = Vec::new();
            let m = option_string(&message);
            pairs.push(pair("Job ID", job_id));
            pairs.push(pair("State", owned(job_state_name(state))));
            pairs.push(pair("Message", m));
            proof {
                assert(pair_texts(pairs@) =~= seq![
                    ("Job ID"@, v->JobStatus_job_id),
                    ("State"@, job_state_text(state)),
                    ("Message"@, option_text(v->JobStatus_message)),
                ]);
            }
            Ok(key_values("Job status", &pairs))
        },
        Response::Jobs { jobs, total } => Ok(render_jobs(&jobs, total)),
        Response::Error { code, message } => Err(CliError::daemon(code, message)),
    }
}

} // verus!
