//! Decisions of a Wi-Fi scan across interfaces: which interfaces can scan,
//! how their names are shown, and the order in which networks are reported.

use vstd::multiset::Multiset;
use vstd::prelude::*;

use crate::codec::views;
use crate::daemon::{lemma_text_le_total, lemma_text_le_trans, text_le};
use crate::model::{AdapterInfo, WifiNetwork, WifiNetworkView};
use crate::platform::{PlatformError, PlatformErrorKind};
use crate::plan::join;
use crate::text::{append, dec, decimal, owned};

verus! {

// ---------------------------------------------------------------------------
// Interfaces that can scan
// ---------------------------------------------------------------------------

/// The indices of the interfaces whose radio is off, in order.
pub open spec fn radio_off_indexes(if_indexes: Seq<u32>, radio_off: Seq<bool>) -> Seq<u32>
    decreases if_indexes.len(),
{
    if if_indexes.len() == 0 {
        Seq::empty()
    } else {
        let rest = radio_off_indexes(if_indexes.drop_last(), radio_off);
        if radio_off[if_indexes.len() - 1] {
            rest.push(if_indexes.last())
        } else {
            rest
        }
    }
}

/// The positions of the interfaces whose radio is not off, in order.
pub open spec fn scannable_positions(radio_off: Seq<bool>) -> Seq<int>
    decreases radio_off.len(),
{
    if radio_off.len() == 0 {
        Seq::empty()
    } else if radio_off.last() {
        scannable_positions(radio_off.drop_last())
    } else {
        scannable_positions(radio_off.drop_last()).push(radio_off.len() - 1)
    }
}

/// The refusal of a scan when every selected radio is off.
pub open spec fn radios_off_text(indexes: Seq<u32>) -> Seq<char> {
    "Wi-Fi radio is off for Native Wi-Fi interface if_index="@ + join(
        indexes.map_values(|i: u32| dec(i as nat)),
        ", "@,
    ) + "; turn on Wi-Fi and retry"@
}

/// The interfaces a scan uses, as positions, and whether the result can
/// count as refreshed: only when a refresh was asked for and no selected
/// radio is off. A scan where every selected radio is off is refused.
pub fn scan_targets(if_indexes: &Vec<u32>, radio_off: &Vec<bool>, refresh: bool) -> (r: Result<
    (Vec<usize>, bool),
    PlatformError,
>)
    requires
        if_indexes@.len() == radio_off@.len(),
    ensures
        scannable_positions(radio_off@).len() == 0 ==> (r matches Err(e) && e.kind
            == PlatformErrorKind::Unsupported && !e.rolled_back && e.message@ == radios_off_text(
            radio_off_indexes(if_indexes@, radio_off@),
        )),
        scannable_positions(radio_off@).len() > 0 ==> (r matches Ok((positions, refreshed))
            && positions@.map_values(|p: usize| p as int) == scannable_positions(radio_off@)
            && refreshed == (refresh && radio_off_indexes(if_indexes@, radio_off@).len() == 0)),
{
    let n = if_indexes.len();
    let mut positions: Vec<usize> = Vec::new();
    let mut off: Vec<u32> = Vec::new();
    for i in 0..n
        invariant
            n == if_indexes@.len() == radio_off@.len(),
            positions@.map_values(|p: usize| p as int) =~= scannable_positions(radio_off@.take(i as int)),
            off@ =~= radio_off_indexes(if_indexes@.take(i as int), radio_off@),
    {
        proof {
            assert(radio_off@.take(i + 1).drop_last() =~= radio_off@.take(i as int));
            assert(if_indexes@.take(i + 1).drop_last() =~= if_indexes@.take(i as int));
            lemma_radio_off_prefix(if_indexes@, radio_off@, i as int);
        }
        if radio_off[i] {
            off.push(if_indexes[i]);
        } else {
            let ghost before = positions@;
            positions.push(i);
            assert(positions@.map_values(|p: usize| p as int) =~= before.map_values(|p: usize| p as int).push(
                i as int,
            ));
        }
    }
    proof {
        assert(radio_off@.take(n as int) =~= radio_off@);
        assert(if_indexes@.take(n as int) =~= if_indexes@);
    }
    if positions.len() == 0 {
        let mut m = owned("Wi-Fi radio is off for Native Wi-Fi interface if_index=");
        let ghost f = |i: u32| dec(i as nat);
        let mut parts: Vec<String> = Vec::new();
        let k = off.len();
        for j in 0..k
            invariant
                k == off@.len(),
                f == (|i: u32| dec(i as nat)),
                crate::plan::texts(parts@) =~= off@.take(j as int).map_values(f),
        {
            let d = decimal(off[j] as u64);
            let ghost prev = crate::plan::texts(parts@);
            let ghost dv = d@;
            parts.push(d);
            proof {
                assert(crate::plan::texts(parts@) =~= prev.push(dv));
                assert(off@.take(j + 1).map_values(f) =~= off@.take(j as int).map_values(f).push(f(off@[j as int])));
            }
        }
        assert(off@.take(k as int) =~= off@);
        let joined = crate::output::join_lines(&parts, ", ");
        append(&mut m, joined.as_str());
        append(&mut m, "; turn on Wi-Fi and retry");
        return Err(PlatformError::unsupported(m));
    }
    let refreshed = refresh && off.len() == 0;
    Ok((positions, refreshed))
}

proof fn lemma_radio_off_prefix(if_indexes: Seq<u32>, radio_off: Seq<bool>, i: int)
    requires
        0 <= i < if_indexes.len(),
        if_indexes.len() == radio_off.len(),
    ensures
        radio_off_indexes(if_indexes.take(i + 1), radio_off) == (if radio_off[i] {
            radio_off_indexes(if_indexes.take(i), radio_off).push(if_indexes[i])
        } else {
            radio_off_indexes(if_indexes.take(i), radio_off)
        }),
        scannable_positions(radio_off.take(i + 1)) == (if radio_off[i] {
            scannable_positions(radio_off.take(i))
        } else {
            scannable_positions(radio_off.take(i)).push(i)
        }),
{
    assert(if_indexes.take(i + 1).drop_last() =~= if_indexes.take(i));
    assert(radio_off.take(i + 1).drop_last() =~= radio_off.take(i));
}

// ---------------------------------------------------------------------------
// Interface names
// ---------------------------------------------------------------------------

/// How an interface is named: by the first adapter with its index when that
/// name is not empty, else by its own description.
pub open spec fn interface_display_name(adapters: Seq<AdapterInfo>, if_index: u32, description: Seq<char>) -> Seq<char>
    decreases adapters.len(),
{
    if adapters.len() == 0 {
        description
    } else if adapters[0].if_index == if_index {
        if adapters[0].name@.len() > 0 {
            adapters[0].name@
        } else {
            description
        }
    } else {
        interface_display_name(adapters.drop_first(), if_index, description)
    }
}

/// Names an interface after its adapter, or by its description.
pub fn interface_name(adapters: &Vec<AdapterInfo>, if_index: u32, description: &str) -> (r: String)
    ensures
        r@ == interface_display_name(adapters@, if_index, description@),
{
    let n = adapters.len();
    assert(adapters@.skip(0) =~= adapters@);
    for i in 0..n
        invariant
            n == adapters@.len(),
            interface_display_name(adapters@, if_index, description@) == interface_display_name(
                adapters@.skip(i as int),
                if_index,
                description@,
            ),
    {
        proof {
            assert(adapters@.skip(i as int).drop_first() =~= adapters@.skip(i + 1));
            assert(adapters@.skip(i as int)[0] == adapters@[i as int]);
        }
        if adapters[i].if_index == if_index {
            if adapters[i].name.as_str().is_empty() {
                return owned(description);
            }
            return adapters[i].name.clone();
        }
    }
    assert(adapters@.skip(n as int) =~= Seq::<AdapterInfo>::empty());
    owned(description)
}

// ---------------------------------------------------------------------------
// Network order
// ---------------------------------------------------------------------------

/// The order of reported networks: connected first, then stronger signal,
/// then SSID, then interface index.
pub open spec fn network_before(a: WifiNetworkView, b: WifiNetworkView) -> bool {
    if a.connected != b.connected {
        a.connected
    } else if a.signal_quality != b.signal_quality {
        a.signal_quality > b.signal_quality
    } else if a.ssid != b.ssid {
        text_le(a.ssid, b.ssid)
    } else {
        a.interface_if_index <= b.interface_if_index
    }
}

/// The networks are in report order.
pub open spec fn networks_in_order(s: Seq<WifiNetworkView>) -> bool {
    forall|i: int, j: int| 0 <= i < j < s.len() ==> network_before(#[trigger] s[i], #[trigger] s[j])
}

proof fn lemma_text_le_antisym(a: Seq<char>, b: Seq<char>)
    requires
        text_le(a, b),
        text_le(b, a),
    ensures
        a == b,
    decreases a.len(),
{
    if a.len() > 0 && b.len() > 0 {
        lemma_text_le_antisym(a.drop_first(), b.drop_first());
        assert(a =~= seq![a[0]] + a.drop_first());
        assert(b =~= seq![b[0]] + b.drop_first());
    }
}

proof fn lemma_network_total(a: WifiNetworkView, b: WifiNetworkView)
    ensures
        network_before(a, b) || network_before(b, a),
{
    lemma_text_le_total(a.ssid, b.ssid);
}

proof fn lemma_network_trans(a: WifiNetworkView, b: WifiNetworkView, c: WifiNetworkView)
    requires
        network_before(a, b),
        network_before(b, c),
    ensures
        network_before(a, c),
{
    if a.connected == b.connected && b.connected == c.connected && a.signal_quality == b.signal_quality
        && b.signal_quality == c.signal_quality {
        if a.ssid != b.ssid && b.ssid != c.ssid {
            lemma_text_le_trans(a.ssid, b.ssid, c.ssid);
            if a.ssid == c.ssid {
                lemma_text_le_antisym(a.ssid, b.ssid);
            }
        }
    }
}

fn network_goes_before(a: &WifiNetwork, b: &WifiNetwork) -> (r: bool)
    ensures
        r == network_before(a@, b@),
{
    if a.connected != b.connected {
        a.connected
    } else if a.signal_quality != b.signal_quality {
        a.signal_quality > b.signal_quality
    } else {
        let x = owned(a.ssid.as_str());
        let y = owned(b.ssid.as_str());
        if x != y {
            crate::daemon::str_le(a.ssid.as_str(), b.ssid.as_str())
        } else {
            a.interface_if_index <= b.interface_if_index
        }
    }
}

proof fn lemma_empty_multiset<A>(s: Seq<A>)
    requires
        s.len() == 0,
    ensures
        s.to_multiset() =~= Multiset::<A>::empty(),
{
    vstd::seq_lib::to_multiset_len(s);
    vstd::multiset::lemma_multiset_empty_len(s.to_multiset());
}

/// The networks with `x` placed before the first one that it goes before
/// (at the end when there is none).
pub open spec fn insert_first(x: WifiNetworkView, r: Seq<WifiNetworkView>) -> Seq<WifiNetworkView>
    decreases r.len(),
{
    if r.len() == 0 {
        seq![x]
    } else if network_before(x, r[0]) {
        seq![x] + r
    } else {
        seq![r[0]] + insert_first(x, r.drop_first())
    }
}

/// The networks in report order, those equal in every ordering field in
/// the order they came in (a stable sort).
pub open spec fn stable_sorted(s: Seq<WifiNetworkView>) -> Seq<WifiNetworkView>
    decreases s.len(),
{
    if s.len() == 0 {
        s
    } else {
        insert_first(s[0], stable_sorted(s.drop_first()))
    }
}

proof fn lemma_insert_first_at(x: WifiNetworkView, r: Seq<WifiNetworkView>, p: int)
    requires
        0 <= p <= r.len(),
        forall|q: int| 0 <= q < p ==> !network_before(x, #[trigger] r[q]),
        p == r.len() || network_before(x, r[p]),
    ensures
        insert_first(x, r) == r.insert(p, x),
    decreases p,
{
    if r.len() == 0 {
        assert(r.insert(p, x) =~= seq![x]);
    } else if p == 0 {
        assert(r.insert(0, x) =~= seq![x] + r);
    } else {
        assert(!network_before(x, r[0]));
        let t = r.drop_first();
        assert forall|q: int| 0 <= q < p - 1 implies !network_before(x, #[trigger] t[q]) by {
            assert(t[q] == r[q + 1]);
        }
        lemma_insert_first_at(x, t, p - 1);
        assert(seq![r[0]] + t.insert(p - 1, x) =~= r.insert(p, x));
    }
}

/// Puts networks in report order; networks equal in every ordering field
/// keep their relative order.
pub fn sort_networks(v: Vec<WifiNetwork>) -> (r: Vec<WifiNetwork>)
    ensures
        networks_in_order(views(r@)),
        views(r@).to_multiset() == views(v@).to_multiset(),
        views(r@) == stable_sorted(views(v@)),
{
    let mut v = v;
    let ghost all = views(v@);
    let mut r: Vec<WifiNetwork> = Vec::new();
    proof {
        lemma_empty_multiset(views(r@));
        assert(views(r@).to_multiset().add(views(v@).to_multiset()) =~= all.to_multiset());
    }
    proof {
        assert(all.subrange(all.len() as int, all.len() as int) =~= Seq::<WifiNetworkView>::empty());
        assert(views(r@) =~= Seq::<WifiNetworkView>::empty());
    }
    while v.len() > 0
        invariant
            networks_in_order(views(r@)),
            views(r@).to_multiset().add(views(v@).to_multiset()) == all.to_multiset(),
            v@.len() <= all.len(),
            views(v@) == all.subrange(0, v@.len() as int),
            views(r@) == stable_sorted(all.subrange(v@.len() as int, all.len() as int)),
        decreases v@.len(),
    {
        let ghost before = views(v@);
        let x = v.pop().unwrap();
        proof {
            assert(before =~= views(v@).push(x@));
            vstd::seq_lib::to_multiset_build(views(v@), x@);
        }
        let mut p: usize = 0;
        while p < r.len() && !network_goes_before(&x, &r[p])
            invariant
                p <= r@.len(),
                networks_in_order(views(r@)),
                forall|q: int| 0 <= q < p ==> !network_before(x@, #[trigger] views(r@)[q]),
            decreases r@.len() - p,
        {
            p = p + 1;
        }
        let ghost old_r = views(r@);
        r.insert(p, x);
        proof {
            let s = views(r@);
            assert(s =~= old_r.insert(p as int, x@));
            lemma_insert_first_at(x@, old_r, p as int);
            let k = v@.len() as int;
            let tail = all.subrange(k, all.len() as int);
            assert(before == all.subrange(0, k + 1));
            assert(before[k] == x@);
            assert(all.subrange(0, k + 1)[k] == all[k]);
            assert(tail[0] == x@);
            assert(tail.drop_first() =~= all.subrange(k + 1, all.len() as int));
            assert(views(v@) =~= all.subrange(0, k));
            vstd::seq_lib::to_multiset_insert(old_r, p as int, x@);
            assert forall|i: int, j: int| 0 <= i < j < s.len() implies network_before(
                #[trigger] s[i],
                #[trigger] s[j],
            ) by {
                if i < p && j == p {
                    lemma_network_total(x@, old_r[i]);
                } else if i < p && j > p {
                    lemma_network_total(x@, old_r[i]);
                    assert(network_before(old_r[i], old_r[j - 1]));
                } else if i == p && j > p {
                    assert(network_before(x@, old_r[p as int]));
                    if j - 1 > p {
                        assert(network_before(old_r[p as int], old_r[j - 1]));
                        lemma_network_trans(x@, old_r[p as int], old_r[j - 1]);
                    }
                } else if i > p {
                    assert(network_before(old_r[i - 1], old_r[j - 1]));
                } else {
                    assert(network_before(old_r[i], old_r[j]));
                }
            }
            assert(views(r@).to_multiset().add(views(v@).to_multiset()) =~= all.to_multiset());
        }
    }
    proof {
        lemma_empty_multiset(views(v@));
        assert(views(r@).to_multiset() =~= all.to_multiset());
    }
    r
}

// ---------------------------------------------------------------------------
// Combining the interfaces of a scan
// ---------------------------------------------------------------------------

/// What one scanned interface gave: the outcome of waiting for its scan
/// (only read when a refresh was asked for; `true` when the scan completed)
/// and its list of available networks.
pub struct InterfaceScan {
    /// Outcome of the scan and the wait for its completion.
    pub wait: Result<bool, PlatformError>,
    /// Networks the interface reports.
    pub networks: Result<Vec<WifiNetwork>, PlatformError>,
}

/// The interfaces' results taken in order: the first failure stops the
/// scan (a failed wait before the interface's list); otherwise whether every
/// scan completed, and all networks in interface order.
pub open spec fn fold_scans(refresh: bool, outcomes: Seq<InterfaceScan>) -> Result<
    (bool, Seq<WifiNetworkView>),
    PlatformError,
>
    decreases outcomes.len(),
{
    if outcomes.len() == 0 {
        Ok((true, Seq::empty()))
    } else {
        match fold_scans(refresh, outcomes.drop_last()) {
            Err(e) => Err(e),
            Ok((done, nets)) => {
                let o = outcomes.last();
                if refresh && o.wait is Err {
                    Err(o.wait->Err_0)
                } else {
                    match o.networks {
                        Err(e) => Err(e),
                        Ok(v) => Ok(
                            (
                                done && (!refresh || o.wait == Ok::<bool, PlatformError>(true)),
                                nets + views(v@),
                            ),
                        ),
                    }
                }
            },
        }
    }
}

/// The result of a scan over the scannable interfaces, given whether it can
/// count as refreshed before any wait (`scan_targets`) and what each
/// interface gave, in order: the first failure, or the refresh flag (which
/// also needs every requested scan to have completed) with all networks in
/// report order.
pub fn combine_scans(refreshed: bool, refresh: bool, outcomes: Vec<InterfaceScan>) -> (r: Result<
    (bool, Vec<WifiNetwork>),
    PlatformError,
>)
    ensures
        match fold_scans(refresh, outcomes@) {
            Err(e) => r == Err::<(bool, Vec<WifiNetwork>), PlatformError>(e),
            Ok((done, nets)) => r matches Ok((b, v)) && b == (refreshed && done) && views(v@)
                == stable_sorted(nets),
        },
{
    let ghost all = outcomes@;
    let n = outcomes.len();
    let mut rest = outcomes;
    let mut done = true;
    let mut nets: Vec<WifiNetwork> = Vec::new();
    let mut i: usize = 0;
    proof {
        assert(all.take(0) =~= Seq::<InterfaceScan>::empty());
        assert(views(nets@) =~= Seq::<WifiNetworkView>::empty());
        assert(all.subrange(0, n as int) =~= all);
    }
    while i < n
        invariant
            n == all.len(),
            all == outcomes@,
            i <= n,
            rest@ == all.subrange(i as int, n as int),
            fold_scans(refresh, all.take(i as int)) == Ok::<(bool, Seq<WifiNetworkView>), PlatformError>(
                (done, views(nets@)),
            ),
        decreases n - i,
    {
        proof {
            assert(all.take(i + 1).drop_last() =~= all.take(i as int));
            assert(rest@[0] == all[i as int]);
        }
        let o = rest.remove(0);
        proof {
            assert(all.take(i + 1).last() == o);
        }
        let ghost og = o;
        let InterfaceScan { wait, networks } = o;
        let mut completed = true;
        if refresh {
            match wait {
                Err(e) => {
                    proof {
                        assert(og.wait == Err::<bool, PlatformError>(e));
                        assert(fold_scans(refresh, all.take(i + 1)) == Err::<
                            (bool, Seq<WifiNetworkView>),
                            PlatformError,
                        >(e));
                        lemma_fold_scans_error(refresh, all, i as int + 1);
                    }
                    return Err(e);
                },
                Ok(c) => {
                    completed = c;
                },
            }
        }
        match networks {
            Err(e) => {
                proof {
                    assert(og.networks == Err::<Vec<WifiNetwork>, PlatformError>(e));
                    assert(fold_scans(refresh, all.take(i + 1)) == Err::<
                        (bool, Seq<WifiNetworkView>),
                        PlatformError,
                    >(e));
                    lemma_fold_scans_error(refresh, all, i as int + 1);
                }
                return Err(e);
            },
            Ok(v) => {
                let ghost before = views(nets@);
                let ghost added = views(v@);
                let mut v = v;
                nets.append(&mut v);
                proof {
                    assert(views(nets@) =~= before + added);
                }
            },
        }
        proof {
            if refresh {
                assert(og.wait == Ok::<bool, PlatformError>(completed));
            }
        }
        done = done && completed;
        i = i + 1;
        proof {
            assert(rest@ =~= all.subrange(i as int, n as int));
        }
    }
    proof {
        assert(all.take(n as int) =~= all);
    }
    let sorted = sort_networks(nets);
    Ok((refreshed && done, sorted))
}

proof fn lemma_fold_scans_error(refresh: bool, outcomes: Seq<InterfaceScan>, m: int)
    requires
        0 <= m <= outcomes.len(),
        fold_scans(refresh, outcomes.take(m)) is Err,
    ensures
        fold_scans(refresh, outcomes) == fold_scans(refresh, outcomes.take(m)),
    decreases outcomes.len() - m,
{
    if m < outcomes.len() {
        assert(outcomes.take(m + 1).drop_last() =~= outcomes.take(m));
        lemma_fold_scans_error(refresh, outcomes, m + 1);
    } else {
        assert(outcomes.take(m) =~= outcomes);
    }
}

} // verus!
