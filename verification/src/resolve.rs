//! Resolving interface selectors against the live adapter and Native Wi-Fi
//! inventories, and the runtime protection check of a live apply.

use vstd::prelude::*;

use crate::cli::{chars_contain, contains_text};
use crate::config::{AdapterConfig, DriverOperation, InterfaceSelector, NetplanConfig, WifiAction, WifiProfile};
use crate::matcher::{canonical_mac, canonical_mac_chars, guid_core, trim_braces};
use crate::model::AdapterInfo;
use crate::platform::{PlatformError, PlatformErrorKind};
use crate::text::{
    append, chars_eq_ignore_case, chars_of, debug_string, debug_text, dec, decimal, eq_ignore_case,
    lower_text, owned, str_eq_ignore_case, to_lowercase,
};
use crate::wifi::{interface_position, NativeWifiInterface};

verus! {

// ---------------------------------------------------------------------------
// Matching one adapter
// ---------------------------------------------------------------------------

/// Whether an adapter satisfies every field that a selector supplies: the
/// index exactly, the name ignoring ASCII case, the GUID ignoring braces and
/// ASCII case, the MAC address in canonical form, and the description as a
/// case-insensitive substring.
pub open spec fn selects(s: InterfaceSelector, a: AdapterInfo) -> bool {
    &&& (s.if_index matches Some(i) ==> a.if_index == i)
    &&& (s.name matches Some(n) ==> eq_ignore_case(n@, a.name@))
    &&& (s.guid matches Some(g) ==> (a.guid matches Some(c) && eq_ignore_case(guid_core(g@), guid_core(c@))))
    &&& (s.mac_address matches Some(m) ==> (a.mac_address matches Some(c) && canonical_mac(m@) == canonical_mac(c@)))
    &&& (s.description_contains matches Some(d) ==> (a.description matches Some(c) && contains_text(
        lower_text(c@),
        lower_text(d@),
    )))
}

/// A selector with a MAC address never picks an adapter without one, nor an
/// adapter whose MAC address has another canonical form (separators dropped,
/// letters uppercased).
pub proof fn lemma_mac_selector_needs_the_same_mac(s: InterfaceSelector, a: AdapterInfo)
    requires
        s.mac_address is Some,
        a.mac_address is None || canonical_mac(s.mac_address->0@) != canonical_mac(a.mac_address->0@),
    ensures
        !selects(s, a),
{
}

/// A selector picks an adapter only when every field it supplies matches:
/// the same interface index, the same name ignoring ASCII case, the same
/// GUID ignoring braces and ASCII case, and a description that is present.
pub proof fn lemma_selector_needs_every_field(s: InterfaceSelector, a: AdapterInfo)
    ensures
        (s.if_index is Some && s.if_index != Some(a.if_index)) ==> !selects(s, a),
        (s.name is Some && !eq_ignore_case(s.name->0@, a.name@)) ==> !selects(s, a),
        (s.guid is Some && (a.guid is None || !eq_ignore_case(guid_core(s.guid->0@), guid_core(a.guid->0@))))
            ==> !selects(s, a),
        (s.description_contains is Some && a.description is None) ==> !selects(s, a),
        (s.if_index is None && s.name is None && s.guid is None && s.mac_address is None
            && s.description_contains is None) ==> selects(s, a),
{
}

/// Whether an adapter satisfies every field that a selector supplies.
pub fn selector_matches(selector: &InterfaceSelector, adapter: &AdapterInfo) -> (r: bool)
    ensures
        r == selects(*selector, *adapter),
{
    if let Some(i) = selector.if_index {
        if i != adapter.if_index {
            return false;
        }
    }
    if let Some(n) = &selector.name {
        if !str_eq_ignore_case(n.as_str(), adapter.name.as_str()) {
            return false;
        }
    }
    if let Some(g) = &selector.guid {
        match &adapter.guid {
            Some(c) => {
                let x = trim_braces(g.as_str());
                let y = trim_braces(c.as_str());
                if !chars_eq_ignore_case(&x, &y) {
                    return false;
                }
            },
            None => return false,
        }
    }
    if let Some(m) = &selector.mac_address {
        match &adapter.mac_address {
            Some(c) => {
                let x = canonical_mac_chars(m.as_str());
                let y = canonical_mac_chars(c.as_str());
                if !same_chars(&x, &y) {
                    return false;
                }
            },
            None => return false,
        }
    }
    if let Some(d) = &selector.description_contains {
        match &adapter.description {
            Some(c) => {
                let hay = to_lowercase(c.as_str());
                let needle = to_lowercase(d.as_str());
                let h = chars_of(hay.as_str());
                let n = chars_of(needle.as_str());
                if !chars_contain(&h, &n) {
                    return false;
                }
            },
            None => return false,
        }
    }
    true
}

fn same_chars(x: &Vec<char>, y: &Vec<char>) -> (r: bool)
    ensures
        r == (x@ == y@),
{
    if x.len() != y.len() {
        return false;
    }
    let n = x.len();
    for i in 0..n
        invariant
            n == x@.len() == y@.len(),
            forall|k: int| 0 <= k < i ==> x@[k] == y@[k],
    {
        if x[i] != y[i] {
            return false;
        }
    }
    assert(x@ =~= y@);
    true
}

// ---------------------------------------------------------------------------
// Diagnostic text of a selector
// ---------------------------------------------------------------------------

pub open spec fn opt_index_debug(o: Option<u32>) -> Seq<char> {
    match o {
        Some(i) => "Some("@ + dec(i as nat) + ")"@,
        None => "None"@,
    }
}

pub open spec fn opt_text_debug(o: Option<String>) -> Seq<char> {
    match o {
        Some(s) => "Some("@ + debug_text(s@) + ")"@,
        None => "None"@,
    }
}

/// The `Debug` text of a selector.
pub open spec fn selector_debug(s: InterfaceSelector) -> Seq<char> {
    "InterfaceSelector { if_index: "@ + opt_index_debug(s.if_index) + ", name: "@ + opt_text_debug(s.name)
        + ", guid: "@ + opt_text_debug(s.guid) + ", mac_address: "@ + opt_text_debug(s.mac_address)
        + ", description_contains: "@ + opt_text_debug(s.description_contains) + " }"@
}

fn push_opt_index(out: &mut String, o: Option<u32>)
    ensures
        final(out)@ == old(out)@ + opt_index_debug(o),
{
    match o {
        Some(i) => {
            append(out, "Some(");
            let d = decimal(i as u64);
            append(out, d.as_str());
            append(out, ")");
        },
        None => append(out, "None"),
    }
}

fn push_opt_text(out: &mut String, o: &Option<String>)
    ensures
        final(out)@ == old(out)@ + opt_text_debug(*o),
{
    match o {
        Some(s) => {
            append(out, "Some(");
            let d = debug_string(s.as_str());
            append(out, d.as_str());
            append(out, ")");
        },
        None => append(out, "None"),
    }
}

/// The `Debug` text of a selector.
pub fn selector_debug_string(s: &InterfaceSelector) -> (r: String)
    ensures
        r@ == selector_debug(*s),
{
    let mut r = owned("InterfaceSelector { if_index: ");
    push_opt_index(&mut r, s.if_index);
    append(&mut r, ", name: ");
    push_opt_text(&mut r, &s.name);
    append(&mut r, ", guid: ");
    push_opt_text(&mut r, &s.guid);
    append(&mut r, ", mac_address: ");
    push_opt_text(&mut r, &s.mac_address);
    append(&mut r, ", description_contains: ");
    push_opt_text(&mut r, &s.description_contains);
    append(&mut r, " }");
    r
}

// ---------------------------------------------------------------------------
// Resolving a selector to one adapter
// ---------------------------------------------------------------------------

/// A platform failure as a kind and a message.
pub type Failure = (PlatformErrorKind, Seq<char>);

/// Whether a result and its specification agree: the same position, or the
/// same kind and message (never marked as rolled back).
pub open spec fn agrees(r: Result<usize, PlatformError>, s: Result<int, Failure>) -> bool {
    match s {
        Ok(i) => r matches Ok(j) && j == i,
        Err((kind, message)) => r matches Err(e) && e.kind == kind && e.message@ == message
            && !e.rolled_back,
    }
}

/// How many adapters a selector matches.
pub open spec fn match_count(adapters: Seq<AdapterInfo>, s: InterfaceSelector) -> nat
    decreases adapters.len(),
{
    if adapters.len() == 0 {
        0
    } else {
        match_count(adapters.drop_last(), s) + if selects(s, adapters.last()) {
            1nat
        } else {
            0nat
        }
    }
}

/// Position of the last adapter a selector matches.
pub open spec fn last_match(adapters: Seq<AdapterInfo>, s: InterfaceSelector) -> int
    decreases adapters.len(),
{
    if adapters.len() == 0 {
        -1
    } else if selects(s, adapters.last()) {
        adapters.len() - 1
    } else {
        last_match(adapters.drop_last(), s)
    }
}

/// The adapter a selector resolves to: the only one it matches; not found
/// when it matches none, ambiguous when it matches several.
pub open spec fn adapter_resolution(adapters: Seq<AdapterInfo>, s: InterfaceSelector) -> Result<
    int,
    Failure,
> {
    let count = match_count(adapters, s);
    if count == 1 {
        Ok(last_match(adapters, s))
    } else if count == 0 {
        Err(
            (
                PlatformErrorKind::NotFound,
                "interface selector did not match any adapter: "@ + selector_debug(s),
            ),
        )
    } else {
        Err(
            (
                PlatformErrorKind::InvalidConfig,
                "interface selector is ambiguous and matched "@ + dec(count) + " adapters: "@
                    + selector_debug(s),
            ),
        )
    }
}

proof fn lemma_last_match(adapters: Seq<AdapterInfo>, s: InterfaceSelector)
    ensures
        match_count(adapters, s) <= adapters.len(),
        match_count(adapters, s) > 0 ==> 0 <= last_match(adapters, s) < adapters.len() && selects(
            s,
            adapters[last_match(adapters, s)],
        ),
    decreases adapters.len(),
{
    if adapters.len() > 0 {
        lemma_last_match(adapters.drop_last(), s);
    }
}

/// Resolves a selector to the position of the only adapter it matches.
pub fn resolve_adapter(adapters: &Vec<AdapterInfo>, selector: &InterfaceSelector) -> (r: Result<
    usize,
    PlatformError,
>)
    ensures
        agrees(r, adapter_resolution(adapters@, *selector)),
        r matches Ok(i) ==> i < adapters@.len() && selects(*selector, adapters@[i as int]),
{
    let n = adapters.len();
    let mut count: usize = 0;
    let mut last: usize = 0;
    for i in 0..n
        invariant
            n == adapters@.len(),
            count as nat == match_count(adapters@.take(i as int), *selector),
            count <= i,
            count > 0 ==> last as int == last_match(adapters@.take(i as int), *selector),
    {
        proof {
            assert(adapters@.take(i + 1).drop_last() =~= adapters@.take(i as int));
            assert(adapters@.take(i + 1).last() == adapters@[i as int]);
        }
        if selector_matches(selector, &adapters[i]) {
            count = count + 1;
            last = i;
        }
    }
    proof {
        assert(adapters@.take(n as int) =~= adapters@);
        lemma_last_match(adapters@, *selector);
    }
    if count == 1 {
        Ok(last)
    } else if count == 0 {
        let mut m = owned("interface selector did not match any adapter: ");
        let d = selector_debug_string(selector);
        append(&mut m, d.as_str());
        Err(PlatformError::not_found(m))
    } else {
        let mut m = owned("interface selector is ambiguous and matched ");
        let c = decimal(count as u64);
        append(&mut m, c.as_str());
        append(&mut m, " adapters: ");
        let d = selector_debug_string(selector);
        append(&mut m, d.as_str());
        Err(PlatformError::invalid_config(m))
    }
}


// ---------------------------------------------------------------------------
// Resolving a Wi-Fi interface
// ---------------------------------------------------------------------------

/// The Native Wi-Fi interface a selector names: the interface of the adapter
/// the selector resolves to; without a selector, the only interface there is.
pub open spec fn wifi_resolution(
    adapters: Seq<AdapterInfo>,
    interfaces: Seq<NativeWifiInterface>,
    selector: Option<InterfaceSelector>,
) -> Result<int, Failure> {
    match selector {
        Some(s) => match adapter_resolution(adapters, s) {
            Err(f) => Err(f),
            Ok(i) => match interface_position(interfaces, adapters[i].if_index) {
                Some(j) => Ok(j),
                None => Err(
                    (
                        PlatformErrorKind::InvalidConfig,
                        "selector resolves to interface if_index="@ + dec(adapters[i].if_index as nat)
                            + ", which is not exposed by Native Wi-Fi"@,
                    ),
                ),
            },
        },
        None => if interfaces.len() == 0 {
            Err((PlatformErrorKind::NotFound, "no enabled Native Wi-Fi interface is available"@))
        } else if interfaces.len() > 1 {
            Err(
                (
                    PlatformErrorKind::InvalidConfig,
                    "multiple Native Wi-Fi interfaces are available; an explicit selector is required"@,
                ),
            )
        } else {
            Ok(0)
        },
    }
}

proof fn lemma_interface_position(interfaces: Seq<NativeWifiInterface>, k: u32)
    ensures
        interface_position(interfaces, k) matches Some(j) ==> 0 <= j < interfaces.len()
            && interfaces[j].if_index == k,
        interface_position(interfaces, k) is None ==> forall|j: int|
            0 <= j < interfaces.len() ==> #[trigger] interfaces[j].if_index != k,
    decreases interfaces.len(),
{
    if interfaces.len() > 0 {
        lemma_interface_position(interfaces.drop_last(), k);
        assert(forall|j: int| 0 <= j < interfaces.len() - 1 ==> interfaces.drop_last()[j] == interfaces[j]);
    }
}

fn find_interface(interfaces: &Vec<NativeWifiInterface>, k: u32) -> (r: Option<usize>)
    ensures
        match interface_position(interfaces@, k) {
            Some(j) => r matches Some(i) && i == j,
            None => r is None,
        },
{
    let n = interfaces.len();
    for i in 0..n
        invariant
            n == interfaces@.len(),
            interface_position(interfaces@.take(i as int), k) is None,
    {
        proof {
            assert(interfaces@.take(i + 1).drop_last() =~= interfaces@.take(i as int));
            assert(interfaces@.take(i + 1).last() == interfaces@[i as int]);
        }
        if interfaces[i].if_index == k {
            proof {
                lemma_prefix_position(interfaces@, k, i + 1);
            }
            return Some(i);
        }
    }
    proof {
        assert(interfaces@.take(n as int) =~= interfaces@);
    }
    None
}

proof fn lemma_prefix_position(interfaces: Seq<NativeWifiInterface>, k: u32, m: int)
    requires
        0 <= m <= interfaces.len(),
        interface_position(interfaces.take(m), k) is Some,
    ensures
        interface_position(interfaces, k) == interface_position(interfaces.take(m), k),
    decreases interfaces.len() - m,
{
    if m < interfaces.len() {
        assert(interfaces.take(m + 1).drop_last() =~= interfaces.take(m));
        lemma_prefix_position(interfaces, k, m + 1);
    } else {
        assert(interfaces.take(m) =~= interfaces);
    }
}

/// Resolves the Native Wi-Fi interface that a profile or action targets, as
/// a position in `interfaces`.
pub fn resolve_wifi_interface(
    adapters: &Vec<AdapterInfo>,
    interfaces: &Vec<NativeWifiInterface>,
    selector: &Option<InterfaceSelector>,
) -> (r: Result<usize, PlatformError>)
    ensures
        agrees(r, wifi_resolution(adapters@, interfaces@, *selector)),
        r matches Ok(j) ==> j < interfaces@.len(),
{
    match selector {
        Some(s) => {
            let i = resolve_adapter(adapters, s)?;
            let k = adapters[i].if_index;
            proof {
                lemma_interface_position(interfaces@, k);
            }
            match find_interface(interfaces, k) {
                Some(j) => Ok(j),
                None => {
                    let mut m = owned("selector resolves to interface if_index=");
                    let d = decimal(k as u64);
                    append(&mut m, d.as_str());
                    append(&mut m, ", which is not exposed by Native Wi-Fi");
                    Err(PlatformError::invalid_config(m))
                },
            }
        },
        None => {
            if interfaces.len() == 0 {
                Err(PlatformError::not_found(owned("no enabled Native Wi-Fi interface is available")))
            } else if interfaces.len() > 1 {
                Err(
                    PlatformError::invalid_config(
                        owned(
                            "multiple Native Wi-Fi interfaces are available; an explicit selector is required",
                        ),
                    ),
                )
            } else {
                Ok(0)
            }
        },
    }
}


// ---------------------------------------------------------------------------
// Runtime protection of management interfaces
// ---------------------------------------------------------------------------

/// The interface indices gathered from `items` after `init`, one step per
/// item, or the first failure.
pub open spec fn gather<T>(
    items: Seq<T>,
    init: Seq<u32>,
    step: spec_fn(Seq<u32>, T) -> Result<Seq<u32>, Failure>,
) -> Result<Seq<u32>, Failure>
    decreases items.len(),
{
    if items.len() == 0 {
        Ok(init)
    } else {
        match gather(items.drop_last(), init, step) {
            Err(f) => Err(f),
            Ok(v) => step(v, items.last()),
        }
    }
}

proof fn lemma_gather_err<T>(
    items: Seq<T>,
    init: Seq<u32>,
    step: spec_fn(Seq<u32>, T) -> Result<Seq<u32>, Failure>,
    m: int,
)
    requires
        0 <= m <= items.len(),
        gather(items.take(m), init, step) is Err,
    ensures
        gather(items, init, step) == gather(items.take(m), init, step),
    decreases items.len() - m,
{
    if m < items.len() {
        assert(items.take(m + 1).drop_last() =~= items.take(m));
        lemma_gather_err(items, init, step, m + 1);
    } else {
        assert(items.take(m) =~= items);
    }
}

/// A protected selector adds the index of the adapter it resolves to.
pub open spec fn protect_step(adapters: Seq<AdapterInfo>) -> spec_fn(Seq<u32>, InterfaceSelector) -> Result<
    Seq<u32>,
    Failure,
> {
    |v: Seq<u32>, s: InterfaceSelector|
        match adapter_resolution(adapters, s) {
            Ok(i) => Ok(v.push(adapters[i].if_index)),
            Err(f) => Err(f),
        }
}

/// An adapter entry adds the index of its adapter, which no earlier entry
/// may have resolved to.
pub open spec fn adapter_step(adapters: Seq<AdapterInfo>) -> spec_fn(Seq<u32>, AdapterConfig) -> Result<
    Seq<u32>,
    Failure,
> {
    |v: Seq<u32>, a: AdapterConfig|
        match adapter_resolution(adapters, a.selector) {
            Ok(i) => if v.contains(adapters[i].if_index) {
                Err(
                    (
                        PlatformErrorKind::InvalidConfig,
                        "multiple adapter entries resolve to if_index="@ + dec(adapters[i].if_index as nat),
                    ),
                )
            } else {
                Ok(v.push(adapters[i].if_index))
            },
            Err(f) => Err(f),
        }
}

/// A Wi-Fi profile or action adds the index of the interface it targets.
pub open spec fn wifi_step(adapters: Seq<AdapterInfo>, interfaces: Seq<NativeWifiInterface>) -> spec_fn(
    Seq<u32>,
    Option<InterfaceSelector>,
) -> Result<Seq<u32>, Failure> {
    |v: Seq<u32>, s: Option<InterfaceSelector>|
        match wifi_resolution(adapters, interfaces, s) {
            Ok(j) => Ok(v.push(interfaces[j].if_index)),
            Err(f) => Err(f),
        }
}

/// An adapter restart adds the index of its adapter; an installation adds
/// nothing.
pub open spec fn driver_step(adapters: Seq<AdapterInfo>) -> spec_fn(Seq<u32>, DriverOperation) -> Result<
    Seq<u32>,
    Failure,
> {
    |v: Seq<u32>, d: DriverOperation|
        match d {
            DriverOperation::RestartAdapter { selector } => match adapter_resolution(adapters, selector) {
                Ok(i) => Ok(v.push(adapters[i].if_index)),
                Err(f) => Err(f),
            },
            DriverOperation::Install { .. } => Ok(v),
        }
}

/// The interface selector of a Wi-Fi action.
pub open spec fn action_selector(a: WifiAction) -> Option<InterfaceSelector> {
    match a {
        WifiAction::Scan { selector } => selector,
        WifiAction::Connect { selector, .. } => selector,
        WifiAction::Disconnect { selector } => selector,
    }
}

/// The first target, in order, that is protected.
pub open spec fn first_protected(targets: Seq<u32>, protected: Seq<u32>) -> Option<u32>
    decreases targets.len(),
{
    if targets.len() == 0 {
        None
    } else {
        match first_protected(targets.drop_last(), protected) {
            Some(k) => Some(k),
            None => if protected.contains(targets.last()) {
                Some(targets.last())
            } else {
                None
            },
        }
    }
}

/// Why a live configuration may not be applied to this machine, if it may
/// not: a selector that does not resolve, two adapter entries for one
/// adapter, or a target that is a protected management interface. Checked
/// in this order: protected selectors, adapters, Wi-Fi profiles, Wi-Fi
/// actions, adapter restarts, then protection.
pub open spec fn protection_problem(
    config: NetplanConfig,
    adapters: Seq<AdapterInfo>,
    interfaces: Seq<NativeWifiInterface>,
) -> Option<Failure> {
    match gather(config.protect.management_interfaces@, Seq::empty(), protect_step(adapters)) {
        Err(f) => Some(f),
        Ok(protected) => match gather(config.adapters@, Seq::empty(), adapter_step(adapters)) {
            Err(f) => Some(f),
            Ok(t1) => match gather(
                config.wifi@.map_values(|p: WifiProfile| p.selector),
                t1,
                wifi_step(adapters, interfaces),
            ) {
                Err(f) => Some(f),
                Ok(t2) => match gather(
                    config.wifi_actions@.map_values(|a: WifiAction| action_selector(a)),
                    t2,
                    wifi_step(adapters, interfaces),
                ) {
                    Err(f) => Some(f),
                    Ok(t3) => match gather(config.drivers@, t3, driver_step(adapters)) {
                        Err(f) => Some(f),
                        Ok(t4) => match first_protected(t4, protected) {
                            Some(k) => Some(
                                (
                                    PlatformErrorKind::InvalidConfig,
                                    "live configuration resolves to protected management interface if_index="@
                                        + dec(k as nat),
                                ),
                            ),
                            None => None,
                        },
                    },
                },
            },
        },
    }
}

/// Whether a gathering step agrees with its specification: on success the
/// gathered indices, else the failure.
pub open spec fn gathered(r: Result<(), PlatformError>, after: Seq<u32>, s: Result<Seq<u32>, Failure>) -> bool {
    match s {
        Ok(v) => r is Ok && after == v,
        Err((kind, message)) => r matches Err(e) && e.kind == kind && e.message@ == message
            && !e.rolled_back,
    }
}

fn contains_index(v: &Vec<u32>, k: u32) -> (r: bool)
    ensures
        r == v@.contains(k),
{
    let n = v.len();
    for i in 0..n
        invariant
            n == v@.len(),
            forall|j: int| 0 <= j < i ==> v@[j] != k,
    {
        if v[i] == k {
            assert(v@[i as int] == k);
            return true;
        }
    }
    false
}

fn gather_protected(adapters: &Vec<AdapterInfo>, selectors: &Vec<InterfaceSelector>, targets: &mut Vec<u32>) -> (r:
    Result<(), PlatformError>)
    ensures
        gathered(r, final(targets)@, gather(selectors@, old(targets)@, protect_step(adapters@))),
{
    let ghost step = protect_step(adapters@);
    let n = selectors.len();
    assert(selectors@.take(0) =~= Seq::<InterfaceSelector>::empty());
    for i in 0..n
        invariant
            n == selectors@.len(),
            step == protect_step(adapters@),
            gather(selectors@.take(i as int), old(targets)@, step) == Ok::<Seq<u32>, Failure>(targets@),
    {
        proof {
            assert(selectors@.take(i + 1).drop_last() =~= selectors@.take(i as int));
            assert(selectors@.take(i + 1).last() == selectors@[i as int]);
        }
        match resolve_adapter(adapters, &selectors[i]) {
            Ok(j) => {
                targets.push(adapters[j].if_index);
            },
            Err(e) => {
                proof {
                    lemma_gather_err(selectors@, old(targets)@, step, i + 1);
                }
                return Err(e);
            },
        }
    }
    assert(selectors@.take(n as int) =~= selectors@);
    Ok(())
}

fn gather_adapters(adapters: &Vec<AdapterInfo>, entries: &Vec<AdapterConfig>, targets: &mut Vec<u32>) -> (r:
    Result<(), PlatformError>)
    ensures
        gathered(r, final(targets)@, gather(entries@, old(targets)@, adapter_step(adapters@))),
{
    let ghost step = adapter_step(adapters@);
    let n = entries.len();
    assert(entries@.take(0) =~= Seq::<AdapterConfig>::empty());
    for i in 0..n
        invariant
            n == entries@.len(),
            step == adapter_step(adapters@),
            gather(entries@.take(i as int), old(targets)@, step) == Ok::<Seq<u32>, Failure>(targets@),
    {
        proof {
            assert(entries@.take(i + 1).drop_last() =~= entries@.take(i as int));
            assert(entries@.take(i + 1).last() == entries@[i as int]);
        }
        match resolve_adapter(adapters, &entries[i].selector) {
            Ok(j) => {
                let k = adapters[j].if_index;
                if contains_index(targets, k) {
                    let mut m = owned("multiple adapter entries resolve to if_index=");
                    let d = decimal(k as u64);
                    append(&mut m, d.as_str());
                    proof {
                        lemma_gather_err(entries@, old(targets)@, step, i + 1);
                    }
                    return Err(PlatformError::invalid_config(m));
                }
                targets.push(k);
            },
            Err(e) => {
                proof {
                    lemma_gather_err(entries@, old(targets)@, step, i + 1);
                }
                return Err(e);
            },
        }
    }
    assert(entries@.take(n as int) =~= entries@);
    Ok(())
}

/// The selector of a Wi-Fi action.
fn action_selector_of(a: &WifiAction) -> (r: &Option<InterfaceSelector>)
    ensures
        *r == action_selector(*a),
{
    match a {
        WifiAction::Scan { selector } => selector,
        WifiAction::Connect { selector, .. } => selector,
        WifiAction::Disconnect { selector } => selector,
    }
}

fn gather_profiles(
    adapters: &Vec<AdapterInfo>,
    interfaces: &Vec<NativeWifiInterface>,
    profiles: &Vec<WifiProfile>,
    targets: &mut Vec<u32>,
) -> (r: Result<(), PlatformError>)
    ensures
        gathered(
            r,
            final(targets)@,
            gather(
                profiles@.map_values(|p: WifiProfile| p.selector),
                old(targets)@,
                wifi_step(adapters@, interfaces@),
            ),
        ),
{
    let ghost step = wifi_step(adapters@, interfaces@);
    let ghost items = profiles@.map_values(|p: WifiProfile| p.selector);
    let n = profiles.len();
    assert(items.take(0) =~= Seq::<Option<InterfaceSelector>>::empty());
    for i in 0..n
        invariant
            n == profiles@.len(),
            items == profiles@.map_values(|p: WifiProfile| p.selector),
            step == wifi_step(adapters@, interfaces@),
            gather(items.take(i as int), old(targets)@, step) == Ok::<Seq<u32>, Failure>(targets@),
    {
        proof {
            assert(items.take(i + 1).drop_last() =~= items.take(i as int));
            assert(items.take(i + 1).last() == profiles@[i as int].selector);
        }
        match resolve_wifi_interface(adapters, interfaces, &profiles[i].selector) {
            Ok(j) => {
                targets.push(interfaces[j].if_index);
            },
            Err(e) => {
                proof {
                    lemma_gather_err(items, old(targets)@, step, i + 1);
                }
                return Err(e);
            },
        }
    }
    assert(items.take(n as int) =~= items);
    Ok(())
}

fn gather_actions(
    adapters: &Vec<AdapterInfo>,
    interfaces: &Vec<NativeWifiInterface>,
    actions: &Vec<WifiAction>,
    targets: &mut Vec<u32>,
) -> (r: Result<(), PlatformError>)
    ensures
        gathered(
            r,
            final(targets)@,
            gather(
                actions@.map_values(|a: WifiAction| action_selector(a)),
                old(targets)@,
                wifi_step(adapters@, interfaces@),
            ),
        ),
{
    let ghost step = wifi_step(adapters@, interfaces@);
    let ghost items = actions@.map_values(|a: WifiAction| action_selector(a));
    let n = actions.len();
    assert(items.take(0) =~= Seq::<Option<InterfaceSelector>>::empty());
    for i in 0..n
        invariant
            n == actions@.len(),
            items == actions@.map_values(|a: WifiAction| action_selector(a)),
            step == wifi_step(adapters@, interfaces@),
            gather(items.take(i as int), old(targets)@, step) == Ok::<Seq<u32>, Failure>(targets@),
    {
        proof {
            assert(items.take(i + 1).drop_last() =~= items.take(i as int));
            assert(items.take(i + 1).last() == action_selector(actions@[i as int]));
        }
        match resolve_wifi_interface(adapters, interfaces, action_selector_of(&actions[i])) {
            Ok(j) => {
                targets.push(interfaces[j].if_index);
            },
            Err(e) => {
                proof {
                    lemma_gather_err(items, old(targets)@, step, i + 1);
                }
                return Err(e);
            },
        }
    }
    assert(items.take(n as int) =~= items);
    Ok(())
}

fn gather_drivers(adapters: &Vec<AdapterInfo>, drivers: &Vec<DriverOperation>, targets: &mut Vec<u32>) -> (r:
    Result<(), PlatformError>)
    ensures
        gathered(r, final(targets)@, gather(drivers@, old(targets)@, driver_step(adapters@))),
{
    let ghost step = driver_step(adapters@);
    let n = drivers.len();
    assert(drivers@.take(0) =~= Seq::<DriverOperation>::empty());
    for i in 0..n
        invariant
            n == drivers@.len(),
            step == driver_step(adapters@),
            gather(drivers@.take(i as int), old(targets)@, step) == Ok::<Seq<u32>, Failure>(targets@),
    {
        proof {
            assert(drivers@.take(i + 1).drop_last() =~= drivers@.take(i as int));
            assert(drivers@.take(i + 1).last() == drivers@[i as int]);
        }
        match &drivers[i] {
            DriverOperation::RestartAdapter { selector } => match resolve_adapter(adapters, selector) {
                Ok(j) => {
                    targets.push(adapters[j].if_index);
                },
                Err(e) => {
                    proof {
                        lemma_gather_err(drivers@, old(targets)@, step, i + 1);
                    }
                    return Err(e);
                },
            },
            DriverOperation::Install { .. } => {},
        }
    }
    assert(drivers@.take(n as int) =~= drivers@);
    Ok(())
}

proof fn lemma_first_protected_prefix(targets: Seq<u32>, protected: Seq<u32>, m: int)
    requires
        0 <= m <= targets.len(),
        first_protected(targets.take(m), protected) is Some,
    ensures
        first_protected(targets, protected) == first_protected(targets.take(m), protected),
    decreases targets.len() - m,
{
    if m < targets.len() {
        assert(targets.take(m + 1).drop_last() =~= targets.take(m));
        lemma_first_protected_prefix(targets, protected, m + 1);
    } else {
        assert(targets.take(m) =~= targets);
    }
}

fn find_protected(targets: &Vec<u32>, protected: &Vec<u32>) -> (r: Option<u32>)
    ensures
        r == first_protected(targets@, protected@),
{
    let n = targets.len();
    for i in 0..n
        invariant
            n == targets@.len(),
            first_protected(targets@.take(i as int), protected@) is None,
    {
        proof {
            assert(targets@.take(i + 1).drop_last() =~= targets@.take(i as int));
            assert(targets@.take(i + 1).last() == targets@[i as int]);
        }
        if contains_index(protected, targets[i]) {
            proof {
                lemma_first_protected_prefix(targets@, protected@, i + 1);
            }
            return Some(targets[i]);
        }
    }
    assert(targets@.take(n as int) =~= targets@);
    None
}

/// Refuses a live configuration that cannot be resolved on this machine or
/// that would touch a protected management interface.
pub fn validate_runtime_protection(
    config: &NetplanConfig,
    adapters: &Vec<AdapterInfo>,
    interfaces: &Vec<NativeWifiInterface>,
) -> (r: Result<(), PlatformError>)
    ensures
        match protection_problem(*config, adapters@, interfaces@) {
            None => r is Ok,
            Some((kind, message)) => r matches Err(e) && e.kind == kind && e.message@ == message
                && !e.rolled_back,
        },
{
    let mut protected: Vec<u32> = Vec::new();
    assert(protected@ =~= Seq::<u32>::empty());
    gather_protected(adapters, &config.protect.management_interfaces, &mut protected)?;
    let mut targets: Vec<u32> = Vec::new();
    assert(targets@ =~= Seq::<u32>::empty());
    gather_adapters(adapters, &config.adapters, &mut targets)?;
    gather_profiles(adapters, interfaces, &config.wifi, &mut targets)?;
    gather_actions(adapters, interfaces, &config.wifi_actions, &mut targets)?;
    gather_drivers(adapters, &config.drivers, &mut targets)?;
    match find_protected(&targets, &protected) {
        Some(k) => {
            let mut msg = owned("live configuration resolves to protected management interface if_index=");
            let d = decimal(k as u64);
            append(&mut msg, d.as_str());
            Err(PlatformError::invalid_config(msg))
        },
        None => Ok(()),
    }
}

} // verus!
