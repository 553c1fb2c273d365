//! What undoing an adapter's IPv4 changes takes: the state captured before the
//! apply, the commands that bring the adapter back to it, and the check that it
//! was reached.

use vstd::prelude::*;

use crate::codec::views;
use crate::config::{Ipv4Config, Ipv4Network};
use crate::ipv4::{
    address_deletions, adapter_gone, gateway_deletions, gone_text, push_address_deletions,
    push_gateway_deletions, same_ips, same_u32s, text_on_adapter, text_present, Ipv4Snapshot,
    LiveAdapter,
};
use crate::model::IpAddressInfo;
use crate::net::{ipv4_string, ipv4_text};
use crate::netsh::{
    add_address, add_address_args, add_gateway, add_gateway_args, commands_view, dhcp_address,
    dhcp_address_args, dns_commands, dns_dhcp_args, dns_from_dhcp, dns_servers, extend_commands,
    primary_address, primary_address_args, push_command, wins_commands, wins_dhcp_args,
    wins_from_dhcp, wins_servers,
};
use crate::platform::{PlatformError, PlatformErrorKind};
use crate::text::{append, dec, decimal, owned, push_char};

verus! {

/// What an IPv4 rollback restores: the adapter's state before the apply and the
/// addresses and gateways that the apply added.
pub struct NetworkRestore {
    /// Interface index of the adapter.
    pub if_index: u32,
    /// IPv4 state before the apply.
    pub snapshot: Ipv4Snapshot,
    /// Configured addresses that the adapter did not have before.
    pub applied_addresses: Vec<u32>,
    /// Configured gateways that the adapter did not have before.
    pub applied_gateways: Vec<u32>,
}

/// Registry key of the adapter's TCP/IP parameters.
pub open spec fn tcpip_key_text(guid: Seq<char>) -> Seq<char> {
    "SYSTEM\\CurrentControlSet\\Services\\Tcpip\\Parameters\\Interfaces\\"@ + guid
}

/// Registry key of the adapter's NetBIOS-over-TCP/IP parameters.
pub open spec fn netbt_key_text(guid: Seq<char>) -> Seq<char> {
    "SYSTEM\\CurrentControlSet\\Services\\NetBT\\Parameters\\Interfaces\\Tcpip_"@ + guid
}

/// The registry keys whose name-server values tell whether DNS and WINS come
/// from DHCP; an adapter without a GUID cannot be captured.
pub fn restore_keys(guid: &Option<String>) -> (r: Result<(String, String), PlatformError>)
    ensures
        match guid {
            Some(g) => r matches Ok((t, n)) && t@ == tcpip_key_text(g@) && n@ == netbt_key_text(g@),
            None => r matches Err(e) && e.kind == PlatformErrorKind::InvalidConfig
                && e.message@ == "selected adapter has no stable Windows GUID"@ && !e.rolled_back,
        },
{
    match guid {
        None => Err(PlatformError::invalid_config(owned("selected adapter has no stable Windows GUID"))),
        Some(g) => {
            let mut t = owned("SYSTEM\\CurrentControlSet\\Services\\Tcpip\\Parameters\\Interfaces\\");
            append(&mut t, g.as_str());
            let mut n = owned("SYSTEM\\CurrentControlSet\\Services\\NetBT\\Parameters\\Interfaces\\Tcpip_");
            append(&mut n, g.as_str());
            Ok((t, n))
        },
    }
}

/// The configured addresses, in order, whose text no manual address of the snapshot has.
pub open spec fn new_addresses(addresses: Seq<Ipv4Network>, manual: Seq<IpAddressInfo>) -> Seq<u32>
    decreases addresses.len(),
{
    if addresses.len() == 0 {
        Seq::empty()
    } else {
        let rest = new_addresses(addresses.drop_last(), manual);
        let a = addresses.last().spec_addr();
        if text_present(ipv4_text(a), manual) {
            rest
        } else {
            rest.push(a)
        }
    }
}

/// The configured gateways, in order, that the snapshot does not have.
pub open spec fn new_gateways(gateways: Seq<u32>, existing: Seq<u32>) -> Seq<u32>
    decreases gateways.len(),
{
    if gateways.len() == 0 {
        Seq::empty()
    } else {
        let rest = new_gateways(gateways.drop_last(), existing);
        if existing.contains(gateways.last()) {
            rest
        } else {
            rest.push(gateways.last())
        }
    }
}

/// `address/prefix` of a captured address.
pub open spec fn info_text(a: IpAddressInfo) -> Seq<char> {
    a.address@ + "/"@ + dec(a.prefix_length as nat)
}

/// The commands that put back a captured static configuration: the first
/// address with the first gateway, then each further address and gateway.
pub open spec fn static_restore(if_index: u32, s: Ipv4Snapshot) -> Seq<Seq<Seq<char>>> {
    let m = s.manual_ipv4@;
    let g = s.gateways@;
    seq![
        primary_address_args(
            if_index,
            info_text(m[0]),
            if g.len() > 0 {
                ipv4_text(g[0])
            } else {
                "none"@
            },
        ),
    ] + Seq::new((m.len() - 1) as nat, |k: int| add_address_args(if_index, info_text(m[k + 1])))
        + Seq::new(
        if g.len() > 0 {
            (g.len() - 1) as nat
        } else {
            0
        },
        |k: int| add_gateway_args(if_index, ipv4_text(g[k + 1])),
    )
}

/// Whether the manual addresses and gateways are those captured.
pub open spec fn static_state_matches(c: Ipv4Snapshot, s: Ipv4Snapshot) -> bool {
    views(c.manual_ipv4@) == views(s.manual_ipv4@) && c.gateways@ == s.gateways@
}

/// Address commands of a rollback: a captured static configuration that the
/// adapter no longer has is put back; a captured DHCP address that was switched
/// off is switched on again.
pub open spec fn address_restore(if_index: u32, s: Ipv4Snapshot, c: Ipv4Snapshot) -> Seq<Seq<Seq<char>>> {
    if s.manual_ipv4@.len() > 0 && !static_state_matches(c, s) {
        static_restore(if_index, s)
    } else if s.manual_ipv4@.len() == 0 && s.dhcp_enabled != c.dhcp_enabled && s.dhcp_enabled {
        seq![dhcp_address_args(if_index)]
    } else {
        Seq::empty()
    }
}

/// DNS commands of a rollback, when the source or the servers differ.
pub open spec fn dns_restore(if_index: u32, s: Ipv4Snapshot, c: Ipv4Snapshot) -> Seq<Seq<Seq<char>>> {
    if c.dns_from_dhcp != s.dns_from_dhcp || (!s.dns_from_dhcp && c.dns@ != s.dns@) {
        if s.dns_from_dhcp {
            seq![dns_dhcp_args(if_index)]
        } else {
            dns_commands(if_index, s.dns@)
        }
    } else {
        Seq::empty()
    }
}

/// WINS commands of a rollback, when the source or the servers differ.
pub open spec fn wins_restore(if_index: u32, s: Ipv4Snapshot, c: Ipv4Snapshot) -> Seq<Seq<Seq<char>>> {
    if c.wins_from_dhcp != s.wins_from_dhcp || (!s.wins_from_dhcp && c.wins@ != s.wins@) {
        if s.wins_from_dhcp {
            seq![wins_dhcp_args(if_index)]
        } else {
            wins_commands(if_index, s.wins@)
        }
    } else {
        Seq::empty()
    }
}

/// The first phase of a rollback, on the adapter as it is now.
pub open spec fn restore_plan(r: NetworkRestore, current: Option<LiveAdapter>) -> Result<
    Seq<Seq<Seq<char>>>,
    (PlatformErrorKind, Seq<char>),
> {
    match current {
        None => Err((PlatformErrorKind::NotFound, gone_text(r.if_index, "before rollback"@))),
        Some(c) => Ok(
            address_restore(r.if_index, r.snapshot, c.state) + dns_restore(r.if_index, r.snapshot, c.state)
                + wins_restore(r.if_index, r.snapshot, c.state),
        ),
    }
}

/// The second phase of a rollback: the deletions of the added addresses and
/// gateways that the adapter still has.
pub open spec fn cleanup_plan(r: NetworkRestore, current: Option<LiveAdapter>) -> Result<
    Seq<Seq<Seq<char>>>,
    (PlatformErrorKind, Seq<char>),
> {
    match current {
        None => Err((PlatformErrorKind::NotFound, gone_text(r.if_index, "during rollback"@))),
        Some(c) => Ok(
            address_deletions(
                r.if_index,
                r.applied_addresses@.map_values(|a: u32| ipv4_text(a)),
                c.addresses@,
            ) + gateway_deletions(r.if_index, r.applied_gateways@, c.state.gateways@),
        ),
    }
}

/// Whether the adapter is back in its captured state.
pub open spec fn restored(r: NetworkRestore, c: LiveAdapter) -> bool {
    let s = r.snapshot;
    let address_restored = if s.manual_ipv4@.len() == 0 {
        forall|i: int|
            0 <= i < r.applied_addresses@.len() ==> !text_present(
                ipv4_text(#[trigger] r.applied_addresses@[i]),
                c.addresses@,
            )
    } else {
        static_state_matches(c.state, s)
    };
    let dns_restored = c.state.dns_from_dhcp == s.dns_from_dhcp && (s.dns_from_dhcp || c.state.dns@
        == s.dns@);
    let wins_restored = c.state.wins_from_dhcp == s.wins_from_dhcp && (s.wins_from_dhcp
        || c.state.wins@ == s.wins@);
    c.state.dhcp_enabled == s.dhcp_enabled && address_restored && dns_restored && wins_restored
}

/// The message when a rollback did not reach the captured state.
pub open spec fn mismatch_text(if_index: u32) -> Seq<char> {
    "adapter if_index="@ + dec(if_index as nat)
        + " did not match its captured logical network state after rollback"@
}

fn same_infos(a: &Vec<IpAddressInfo>, b: &Vec<IpAddressInfo>) -> (r: bool)
    ensures
        r == (views(a@) == views(b@)),
{
    if a.len() != b.len() {
        proof {
            assert(views(a@).len() != views(b@).len());
        }
        return false;
    }
    let n = a.len();
    for i in 0..n
        invariant
            n == a@.len() == b@.len(),
            forall|k: int| 0 <= k < i ==> a@[k]@ == b@[k]@,
    {
        let x = owned(a[i].address.as_str());
        let y = owned(b[i].address.as_str());
        if !(x == y && a[i].prefix_length == b[i].prefix_length) {
            proof {
                assert(views(a@)[i as int] != views(b@)[i as int]);
            }
            return false;
        }
    }
    proof {
        assert(views(a@) =~= views(b@));
    }
    true
}

fn static_matches_now(c: &Ipv4Snapshot, s: &Ipv4Snapshot) -> (r: bool)
    ensures
        r == static_state_matches(*c, *s),
{
    same_infos(&c.manual_ipv4, &s.manual_ipv4) && same_u32s(&c.gateways, &s.gateways)
}

fn info_string(a: &IpAddressInfo) -> (r: String)
    ensures
        r@ == info_text(*a),
{
    let mut t = owned(a.address.as_str());
    push_char(&mut t, '/');
    let d = decimal(a.prefix_length as u64);
    append(&mut t, d.as_str());
    proof {
        assert("/"@ =~= seq!['/']) by {
            reveal_strlit("/");
        }
        assert(t@ =~= info_text(*a));
    }
    t
}

fn push_static_restore(out: &mut Vec<Vec<String>>, if_index: u32, s: &Ipv4Snapshot)
    requires
        s.manual_ipv4@.len() > 0,
    ensures
        commands_view(final(out)@) == commands_view(old(out)@) + static_restore(if_index, *s),
{
    let ghost start = commands_view(out@);
    let ghost m = s.manual_ipv4@;
    let ghost g = s.gateways@;
    let first = info_string(&s.manual_ipv4[0]);
    let gateway = if s.gateways.len() > 0 {
        ipv4_string(s.gateways[0])
    } else {
        owned("none")
    };
    push_command(out, primary_address(if_index, first.as_str(), gateway.as_str()));
    let ghost head = commands_view(out@);
    let n = s.manual_ipv4.len();
    for k in 1..n
        invariant
            n == m.len(),
            m == s.manual_ipv4@,
            commands_view(out@) =~= head + Seq::new(
                (k - 1) as nat,
                |j: int| add_address_args(if_index, info_text(m[j + 1])),
            ),
    {
        let a = info_string(&s.manual_ipv4[k]);
        push_command(out, add_address(if_index, a.as_str()));
    }
    let ghost middle = commands_view(out@);
    let gn = s.gateways.len();
    if gn > 1 {
        for k in 1..gn
            invariant
                gn == g.len(),
                g == s.gateways@,
                commands_view(out@) =~= middle + Seq::new(
                    (k - 1) as nat,
                    |j: int| add_gateway_args(if_index, ipv4_text(g[j + 1])),
                ),
        {
            let t = ipv4_string(s.gateways[k]);
            push_command(out, add_gateway(if_index, t.as_str()));
        }
    }
    proof {
        assert(commands_view(out@) =~= start + static_restore(if_index, *s));
    }
}

/// An adapter that is still in its captured state gets no rollback command,
/// and passes the rollback check once none of the added addresses is on it.
pub proof fn lemma_unchanged_adapter_needs_no_restore(r: NetworkRestore, c: LiveAdapter)
    requires
        c.state == r.snapshot,
    ensures
        restore_plan(r, Some(c)) == Ok::<Seq<Seq<Seq<char>>>, (PlatformErrorKind, Seq<char>)>(
            Seq::empty(),
        ),
        (forall|i: int|
            0 <= i < r.applied_addresses@.len() ==> !text_present(
                ipv4_text(#[trigger] r.applied_addresses@[i]),
                c.addresses@,
            )) ==> restored(r, c),
{
    let e = Seq::<Seq<Seq<char>>>::empty();
    assert(address_restore(r.if_index, r.snapshot, c.state) == e);
    assert(dns_restore(r.if_index, r.snapshot, c.state) == e);
    assert(wins_restore(r.if_index, r.snapshot, c.state) == e);
    assert(e + e + e =~= e);
}

impl NetworkRestore {
    /// The restore point of an adapter, before any target is recorded.
    pub fn capture(if_index: u32, snapshot: Ipv4Snapshot) -> (r: NetworkRestore)
        ensures
            r.if_index == if_index,
            r.snapshot == snapshot,
            r.applied_addresses@.len() == 0,
            r.applied_gateways@.len() == 0,
    {
        NetworkRestore { if_index, snapshot, applied_addresses: Vec::new(), applied_gateways: Vec::new() }
    }

    /// Records which configured addresses and gateways the apply will add; a
    /// DHCP configuration records nothing.
    pub fn record_targets(&mut self, config: &Ipv4Config)
        ensures
            final(self).if_index == old(self).if_index,
            final(self).snapshot == old(self).snapshot,
            match config {
                Ipv4Config::Dhcp { .. } => final(self).applied_addresses@ == old(self).applied_addresses@
                    && final(self).applied_gateways@ == old(self).applied_gateways@,
                Ipv4Config::Static { addresses, gateways, .. } => final(self).applied_addresses@
                    == new_addresses(addresses@, old(self).snapshot.manual_ipv4@)
                    && final(self).applied_gateways@ == new_gateways(
                    gateways@,
                    old(self).snapshot.gateways@,
                ),
            },
    {
        match config {
            Ipv4Config::Dhcp { .. } => {},
            Ipv4Config::Static { addresses, gateways, .. } => {
                let mut added: Vec<u32> = Vec::new();
                let n = addresses.len();
                for i in 0..n
                    invariant
                        n == addresses@.len(),
                        added@ == new_addresses(addresses@.take(i as int), self.snapshot.manual_ipv4@),
                {
                    proof {
                        assert(addresses@.take(i + 1).drop_last() =~= addresses@.take(i as int));
                    }
                    let a = addresses[i].addr();
                    let t = ipv4_string(a);
                    if !text_on_adapter(&t, &self.snapshot.manual_ipv4) {
                        added.push(a);
                    }
                }
                let mut kept: Vec<u32> = Vec::new();
                let gn = gateways.len();
                for i in 0..gn
                    invariant
                        gn == gateways@.len(),
                        kept@ == new_gateways(gateways@.take(i as int), self.snapshot.gateways@),
                {
                    proof {
                        assert(gateways@.take(i + 1).drop_last() =~= gateways@.take(i as int));
                    }
                    let g = gateways[i];
                    let mut present = false;
                    let m = self.snapshot.gateways.len();
                    for j in 0..m
                        invariant
                            m == self.snapshot.gateways@.len(),
                            present == exists|k: int| 0 <= k < j && self.snapshot.gateways@[k] == g,
                    {
                        if self.snapshot.gateways[j] == g {
                            present = true;
                        }
                    }
                    proof {
                        if present {
                            let k = choose|k: int| 0 <= k < m && self.snapshot.gateways@[k] == g;
                            assert(self.snapshot.gateways@.contains(g));
                        } else {
                            assert(!self.snapshot.gateways@.contains(g));
                        }
                    }
                    if !present {
                        kept.push(g);
                    }
                }
                proof {
                    assert(addresses@.take(n as int) =~= addresses@);
                    assert(gateways@.take(gn as int) =~= gateways@);
                }
                self.applied_addresses = added;
                self.applied_gateways = kept;
            },
        }
    }

    /// The first phase of a rollback on the adapter as the inventory shows it
    /// now (`None` when it is gone): address, DNS and WINS commands, in order.
    pub fn restore_commands(&self, current: &Option<LiveAdapter>) -> (r: Result<Vec<Vec<String>>, PlatformError>)
        ensures
            match restore_plan(*self, *current) {
                Ok(cs) => r matches Ok(v) && commands_view(v@) == cs,
                Err((kind, message)) => r matches Err(e) && e.kind == kind && e.message@ == message
                    && !e.rolled_back,
            },
    {
        let c = match current {
            None => {
                return Err(adapter_gone(self.if_index, "before rollback"));
            },
            Some(c) => &c.state,
        };
        let s = &self.snapshot;
        let i = self.if_index;
        let mut out: Vec<Vec<String>> = Vec::new();
        proof {
            assert(commands_view(out@) =~= Seq::empty());
        }
        if s.manual_ipv4.len() > 0 && !static_matches_now(c, s) {
            push_static_restore(&mut out, i, s);
        } else if s.manual_ipv4.len() == 0 && s.dhcp_enabled != c.dhcp_enabled && s.dhcp_enabled {
            push_command(&mut out, dhcp_address(i));
        }
        proof {
            assert(commands_view(out@) =~= address_restore(i, *s, *c));
        }
        if c.dns_from_dhcp != s.dns_from_dhcp || (!s.dns_from_dhcp && !same_ips(&c.dns, &s.dns)) {
            if s.dns_from_dhcp {
                push_command(&mut out, dns_from_dhcp(i));
            } else {
                extend_commands(&mut out, dns_servers(i, &s.dns));
            }
        }
        proof {
            assert(commands_view(out@) =~= address_restore(i, *s, *c) + dns_restore(i, *s, *c));
        }
        if c.wins_from_dhcp != s.wins_from_dhcp || (!s.wins_from_dhcp && !same_u32s(&c.wins, &s.wins)) {
            if s.wins_from_dhcp {
                push_command(&mut out, wins_from_dhcp(i));
            } else {
                extend_commands(&mut out, wins_servers(i, &s.wins));
            }
        }
        proof {
            assert(commands_view(out@) =~= address_restore(i, *s, *c) + dns_restore(i, *s, *c)
                + wins_restore(i, *s, *c));
        }
        Ok(out)
    }

    /// The second phase of a rollback on the adapter as the inventory shows it
    /// now: deletions of the added addresses and gateways that it still has.
    pub fn cleanup_commands(&self, current: &Option<LiveAdapter>) -> (r: Result<Vec<Vec<String>>, PlatformError>)
        ensures
            match cleanup_plan(*self, *current) {
                Ok(cs) => r matches Ok(v) && commands_view(v@) == cs,
                Err((kind, message)) => r matches Err(e) && e.kind == kind && e.message@ == message
                    && !e.rolled_back,
            },
    {
        let c = match current {
            None => {
                return Err(adapter_gone(self.if_index, "during rollback"));
            },
            Some(c) => c,
        };
        let mut texts: Vec<String> = Vec::new();
        let n = self.applied_addresses.len();
        for k in 0..n
            invariant
                n == self.applied_addresses@.len(),
                views(texts@) =~= self.applied_addresses@.take(k as int).map_values(|a: u32| ipv4_text(a)),
        {
            let ghost before = texts@;
            let t = ipv4_string(self.applied_addresses[k]);
            let ghost tv = t@;
            texts.push(t);
            proof {
                assert(views(texts@) =~= views(before).push(tv));
            }
        }
        proof {
            assert(self.applied_addresses@.take(n as int) =~= self.applied_addresses@);
        }
        let mut out: Vec<Vec<String>> = Vec::new();
        proof {
            assert(commands_view(out@) =~= Seq::empty());
        }
        push_address_deletions(&mut out, self.if_index, &texts, &c.addresses);
        push_gateway_deletions(&mut out, self.if_index, &self.applied_gateways, &c.state.gateways);
        proof {
            assert(commands_view(out@) =~= address_deletions(
                self.if_index,
                self.applied_addresses@.map_values(|a: u32| ipv4_text(a)),
                c.addresses@,
            ) + gateway_deletions(self.if_index, self.applied_gateways@, c.state.gateways@));
        }
        Ok(out)
    }

    /// Whether the adapter as the inventory shows it now is back in its
    /// captured state.
    pub fn verify_restored(&self, current: &Option<LiveAdapter>) -> (r: Result<(), PlatformError>)
        ensures
            match current {
                None => r matches Err(e) && e.kind == PlatformErrorKind::NotFound && e.message@
                    == gone_text(self.if_index, "during rollback verification"@) && !e.rolled_back,
                Some(c) => if restored(*self, *c) {
                    r is Ok
                } else {
                    r matches Err(e) && e.kind == PlatformErrorKind::Internal && e.message@
                        == mismatch_text(self.if_index) && !e.rolled_back
                },
            },
    {
        let c = match current {
            None => {
                return Err(adapter_gone(self.if_index, "during rollback verification"));
            },
            Some(c) => c,
        };
        let s = &self.snapshot;
        let address_restored = if s.manual_ipv4.len() == 0 {
            let mut all_gone = true;
            let n = self.applied_addresses.len();
            for k in 0..n
                invariant
                    n == self.applied_addresses@.len(),
                    all_gone == forall|j: int|
                        0 <= j < k ==> !text_present(
                            ipv4_text(#[trigger] self.applied_addresses@[j]),
                            c.addresses@,
                        ),
            {
                let t = ipv4_string(self.applied_addresses[k]);
                if text_on_adapter(&t, &c.addresses) {
                    all_gone = false;
                }
            }
            all_gone
        } else {
            static_matches_now(&c.state, s)
        };
        let dns_restored = c.state.dns_from_dhcp == s.dns_from_dhcp && (s.dns_from_dhcp || same_ips(
            &c.state.dns,
            &s.dns,
        ));
        let wins_restored = c.state.wins_from_dhcp == s.wins_from_dhcp && (s.wins_from_dhcp
            || same_u32s(&c.state.wins, &s.wins));
        if c.state.dhcp_enabled == s.dhcp_enabled && address_restored && dns_restored && wins_restored {
            Ok(())
        } else {
            let mut m = owned("adapter if_index=");
            let d = decimal(self.if_index as u64);
            append(&mut m, d.as_str());
            append(&mut m, " did not match its captured logical network state after rollback");
            Err(PlatformError::internal(m))
        }
    }
}

} // verus!
