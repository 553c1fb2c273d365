//! What applying an IPv4 configuration to an adapter changes, given what the
//! adapter has now.

use vstd::prelude::*;

use crate::config::{IpAddress, Ipv4Config, Ipv4Network};
use crate::model::IpAddressInfo;
use crate::codec::views;
use crate::net::{ipv4_string, ipv4_text, network_string, network_text};
use crate::netsh::{
    add_address, add_address_args, add_gateway, add_gateway_args, commands_view, delete_address,
    delete_address_args, delete_gateway, delete_gateway_args, dhcp_address, dhcp_address_args,
    dns_commands, dns_dhcp_args, dns_from_dhcp, dns_servers, extend_commands, primary_address,
    primary_address_args, push_command, wins_commands, wins_dhcp_args, wins_from_dhcp,
    wins_servers,
};
use crate::platform::{PlatformError, PlatformErrorKind};
use crate::text::{append, dec, decimal, owned};

verus! {

/// The IPv4 state of an adapter before an apply.
pub struct Ipv4Snapshot {
    /// Whether the adapter takes its address from DHCP.
    pub dhcp_enabled: bool,
    /// Manually assigned addresses.
    pub manual_ipv4: Vec<IpAddressInfo>,
    /// Default gateways.
    pub gateways: Vec<u32>,
    /// DNS servers.
    pub dns: Vec<IpAddress>,
    /// WINS servers.
    pub wins: Vec<u32>,
    /// Whether DNS servers come from DHCP.
    pub dns_from_dhcp: bool,
    /// Whether WINS servers come from DHCP.
    pub wins_from_dhcp: bool,
}

/// One change to an adapter's IPv4 state, in the order applied.
#[derive(Clone, Copy, Debug, PartialEq, Eq, Structural)]
pub enum Ipv4Step {
    /// Take the address from DHCP.
    EnableDhcp,
    /// Remove the manual addresses and gateways that the snapshot holds.
    RemoveCaptured,
    /// Take DNS servers from DHCP.
    DnsFromDhcp,
    /// Take WINS servers from DHCP.
    WinsFromDhcp,
    /// Set the first configured address, with the first gateway if any.
    SetPrimary,
    /// Add the configured address at this position.
    AddAddress(usize),
    /// Add the configured gateway at this position.
    AddGateway(usize),
    /// Set the configured DNS servers.
    SetDns,
    /// Set the configured WINS servers.
    SetWins,
}

/// Whether a manual address is the configured network.
pub open spec fn address_is(actual: IpAddressInfo, desired: Ipv4Network) -> bool {
    actual.address@ == ipv4_text(desired.spec_addr()) && actual.prefix_length == desired.spec_prefix_len()
}

/// Whether the adapter already has exactly the static configuration, with
/// DNS and WINS not from DHCP.
pub open spec fn static_matches(
    s: Ipv4Snapshot,
    addresses: Seq<Ipv4Network>,
    gateways: Seq<u32>,
    dns: Seq<IpAddress>,
    wins: Seq<u32>,
) -> bool {
    &&& !s.dns_from_dhcp
    &&& !s.wins_from_dhcp
    &&& s.manual_ipv4@.len() == addresses.len()
    &&& forall|i: int| 0 <= i < addresses.len() ==> address_is(#[trigger] s.manual_ipv4@[i], addresses[i])
    &&& s.gateways@ == gateways
    &&& s.dns@ == dns
    &&& s.wins@ == wins
}

pub open spec fn when(c: bool, step: Ipv4Step) -> Seq<Ipv4Step> {
    if c {
        seq![step]
    } else {
        Seq::empty()
    }
}

/// The changes that bring the adapter to the configuration: none when it
/// already matches; a static configuration without addresses is refused.
pub open spec fn ipv4_plan(s: Ipv4Snapshot, config: Ipv4Config) -> Result<Seq<Ipv4Step>, (PlatformErrorKind, Seq<char>)> {
    match config {
        Ipv4Config::Dhcp { dns_from_dhcp } => Ok(
            when(!s.dhcp_enabled, Ipv4Step::EnableDhcp) + when(
                s.manual_ipv4@.len() > 0,
                Ipv4Step::RemoveCaptured,
            ) + when(dns_from_dhcp && !s.dns_from_dhcp, Ipv4Step::DnsFromDhcp) + when(
                dns_from_dhcp && !s.wins_from_dhcp,
                Ipv4Step::WinsFromDhcp,
            ),
        ),
        Ipv4Config::Static { addresses, gateways, dns, wins } => if static_matches(
            s,
            addresses@,
            gateways@,
            dns@,
            wins@,
        ) {
            Ok(Seq::empty())
        } else if addresses@.len() == 0 {
            Err((PlatformErrorKind::InvalidConfig, "static IPv4 plan contains no addresses"@))
        } else {
            Ok(
                seq![Ipv4Step::SetPrimary] + Seq::new(
                    (addresses@.len() - 1) as nat,
                    |i: int| Ipv4Step::AddAddress((i + 1) as usize),
                ) + Seq::new(
                    if gateways@.len() > 0 {
                        (gateways@.len() - 1) as nat
                    } else {
                        0
                    },
                    |i: int| Ipv4Step::AddGateway((i + 1) as usize),
                ) + seq![Ipv4Step::SetDns, Ipv4Step::SetWins],
            )
        },
    }
}

/// A static configuration counts as already applied only when the adapter
/// already has exactly its addresses, gateways, DNS servers and WINS servers,
/// with neither DNS nor WINS taken from DHCP; otherwise the changes set the
/// primary address and then the DNS and WINS servers.
pub proof fn lemma_static_plan_applies_what_differs(
    s: Ipv4Snapshot,
    addresses: Vec<Ipv4Network>,
    gateways: Vec<u32>,
    dns: Vec<IpAddress>,
    wins: Vec<u32>,
)
    requires
        addresses@.len() > 0,
    ensures
        ({
            let plan = ipv4_plan(s, Ipv4Config::Static { addresses, gateways, dns, wins });
            &&& plan is Ok
            &&& plan->Ok_0.len() == 0 ==> (s.dns@ == dns@ && s.wins@ == wins@ && s.gateways@
                == gateways@ && !s.dns_from_dhcp && !s.wins_from_dhcp && s.manual_ipv4@.len()
                == addresses@.len())
            &&& (s.dns@ != dns@ || s.wins@ != wins@ || s.gateways@ != gateways@ || s.dns_from_dhcp
                || s.wins_from_dhcp || s.manual_ipv4@.len() != addresses@.len()) ==> (plan->Ok_0[0]
                == Ipv4Step::SetPrimary && plan->Ok_0.contains(Ipv4Step::SetDns)
                && plan->Ok_0.contains(Ipv4Step::SetWins))
        }),
{
    let plan = ipv4_plan(s, Ipv4Config::Static { addresses, gateways, dns, wins });
    if !static_matches(s, addresses@, gateways@, dns@, wins@) {
        let steps = plan->Ok_0;
        let n = steps.len();
        assert(steps[n - 2] == Ipv4Step::SetDns);
        assert(steps[n - 1] == Ipv4Step::SetWins);
    }
}

proof fn lemma_when_contains(c: bool, step: Ipv4Step, x: Ipv4Step)
    ensures
        ({
            let w = when(c, step);
            w.contains(x) == (c && step == x) && w.len() == (if c {
                1int
            } else {
                0int
            })
        }),
{
    if c {
        assert(when(c, step)[0] == step);
    }
}

/// Moving an adapter to DHCP switches its address to DHCP when it is static,
/// removes the captured manual addresses when there are any, and, when DNS is
/// to come from DHCP, takes DNS and WINS from DHCP where they do not already;
/// an adapter already in that state needs no change.
pub proof fn lemma_dhcp_plan_applies_what_differs(s: Ipv4Snapshot, dns_from_dhcp: bool)
    ensures
        ({
            let plan = ipv4_plan(s, Ipv4Config::Dhcp { dns_from_dhcp });
            &&& plan is Ok
            &&& plan->Ok_0.contains(Ipv4Step::EnableDhcp) == !s.dhcp_enabled
            &&& plan->Ok_0.contains(Ipv4Step::RemoveCaptured) == (s.manual_ipv4@.len() > 0)
            &&& plan->Ok_0.contains(Ipv4Step::DnsFromDhcp) == (dns_from_dhcp && !s.dns_from_dhcp)
            &&& plan->Ok_0.contains(Ipv4Step::WinsFromDhcp) == (dns_from_dhcp && !s.wins_from_dhcp)
            &&& (plan->Ok_0.len() == 0) == (s.dhcp_enabled && s.manual_ipv4@.len() == 0 && (!dns_from_dhcp || (
            s.dns_from_dhcp && s.wins_from_dhcp)))
        }),
{
    let a = when(!s.dhcp_enabled, Ipv4Step::EnableDhcp);
    let b = when(s.manual_ipv4@.len() > 0, Ipv4Step::RemoveCaptured);
    let c = when(dns_from_dhcp && !s.dns_from_dhcp, Ipv4Step::DnsFromDhcp);
    let d = when(dns_from_dhcp && !s.wins_from_dhcp, Ipv4Step::WinsFromDhcp);
    let steps = a + b + c + d;
    assert(ipv4_plan(s, Ipv4Config::Dhcp { dns_from_dhcp }) == Ok::<Seq<Ipv4Step>, (PlatformErrorKind, Seq<char>)>(steps));
    assert forall|x: Ipv4Step| #[trigger] steps.contains(x) <==> (a.contains(x) || b.contains(x) || c.contains(x) || d.contains(x)) by {
        if steps.contains(x) {
            let k = choose|k: int| 0 <= k < steps.len() && steps[k] == x;
            if k < a.len() {
                assert(a[k] == x);
            } else if k < a.len() + b.len() {
                assert(b[k - a.len()] == x);
            } else if k < a.len() + b.len() + c.len() {
                assert(c[k - a.len() - b.len()] == x);
            } else {
                assert(d[k - a.len() - b.len() - c.len()] == x);
            }
        }
        if a.contains(x) {
            assert(steps[0] == a[0]);
        }
        if b.contains(x) {
            assert(steps[a.len() as int] == b[0]);
        }
        if c.contains(x) {
            assert(steps[(a.len() + b.len()) as int] == c[0]);
        }
        if d.contains(x) {
            assert(steps[(a.len() + b.len() + c.len()) as int] == d[0]);
        }
    }
    assert forall|x: Ipv4Step| true implies {
        &&& a.contains(x) == (!s.dhcp_enabled && x == Ipv4Step::EnableDhcp)
        &&& b.contains(x) == (s.manual_ipv4@.len() > 0 && x == Ipv4Step::RemoveCaptured)
        &&& c.contains(x) == (dns_from_dhcp && !s.dns_from_dhcp && x == Ipv4Step::DnsFromDhcp)
        &&& d.contains(x) == (dns_from_dhcp && !s.wins_from_dhcp && x == Ipv4Step::WinsFromDhcp)
    } by {
        lemma_when_contains(!s.dhcp_enabled, Ipv4Step::EnableDhcp, x);
        lemma_when_contains(s.manual_ipv4@.len() > 0, Ipv4Step::RemoveCaptured, x);
        lemma_when_contains(dns_from_dhcp && !s.dns_from_dhcp, Ipv4Step::DnsFromDhcp, x);
        lemma_when_contains(dns_from_dhcp && !s.wins_from_dhcp, Ipv4Step::WinsFromDhcp, x);
    }
    assert(steps.contains(Ipv4Step::EnableDhcp) == !s.dhcp_enabled);
    assert(steps.contains(Ipv4Step::RemoveCaptured) == (s.manual_ipv4@.len() > 0));
    assert(steps.contains(Ipv4Step::DnsFromDhcp) == (dns_from_dhcp && !s.dns_from_dhcp));
    assert(steps.contains(Ipv4Step::WinsFromDhcp) == (dns_from_dhcp && !s.wins_from_dhcp));
    lemma_when_contains(!s.dhcp_enabled, Ipv4Step::EnableDhcp, Ipv4Step::EnableDhcp);
    lemma_when_contains(s.manual_ipv4@.len() > 0, Ipv4Step::RemoveCaptured, Ipv4Step::RemoveCaptured);
    lemma_when_contains(dns_from_dhcp && !s.dns_from_dhcp, Ipv4Step::DnsFromDhcp, Ipv4Step::DnsFromDhcp);
    lemma_when_contains(dns_from_dhcp && !s.wins_from_dhcp, Ipv4Step::WinsFromDhcp, Ipv4Step::WinsFromDhcp);
}

pub(crate) fn same_u32s(a: &Vec<u32>, b: &Vec<u32>) -> (r: bool)
    ensures
        r == (a@ == b@),
{
    if a.len() != b.len() {
        return false;
    }
    let n = a.len();
    for i in 0..n
        invariant
            n == a@.len() == b@.len(),
            forall|k: int| 0 <= k < i ==> a@[k] == b@[k],
    {
        if a[i] != b[i] {
            return false;
        }
    }
    assert(a@ =~= b@);
    true
}

pub(crate) fn same_ips(a: &Vec<IpAddress>, b: &Vec<IpAddress>) -> (r: bool)
    ensures
        r == (a@ == b@),
{
    if a.len() != b.len() {
        return false;
    }
    let n = a.len();
    for i in 0..n
        invariant
            n == a@.len() == b@.len(),
            forall|k: int| 0 <= k < i ==> a@[k] == b@[k],
    {
        if a[i] != b[i] {
            return false;
        }
    }
    assert(a@ =~= b@);
    true
}

fn addresses_match(actual: &Vec<IpAddressInfo>, desired: &Vec<Ipv4Network>) -> (r: bool)
    ensures
        r == (actual@.len() == desired@.len() && forall|i: int|
            0 <= i < desired@.len() ==> address_is(#[trigger] actual@[i], desired@[i])),
{
    if actual.len() != desired.len() {
        return false;
    }
    let n = actual.len();
    for i in 0..n
        invariant
            n == actual@.len() == desired@.len(),
            forall|k: int| 0 <= k < i ==> address_is(#[trigger] actual@[k], desired@[k]),
    {
        let text = ipv4_string(desired[i].addr());
        let want = owned(actual[i].address.as_str());
        if !(want == text && actual[i].prefix_length == desired[i].prefix_len()) {
            return false;
        }
    }
    true
}

/// Whether the adapter already has exactly the static configuration.
pub fn static_network_matches(
    s: &Ipv4Snapshot,
    addresses: &Vec<Ipv4Network>,
    gateways: &Vec<u32>,
    dns: &Vec<IpAddress>,
    wins: &Vec<u32>,
) -> (r: bool)
    ensures
        r == static_matches(*s, addresses@, gateways@, dns@, wins@),
{
    !s.dns_from_dhcp && !s.wins_from_dhcp && addresses_match(&s.manual_ipv4, addresses) && same_u32s(
        &s.gateways,
        gateways,
    ) && same_ips(&s.dns, dns) && same_u32s(&s.wins, wins)
}

/// The changes that bring an adapter's IPv4 state to the configuration.
pub fn ipv4_steps(s: &Ipv4Snapshot, config: &Ipv4Config) -> (r: Result<Vec<Ipv4Step>, PlatformError>)
    ensures
        match ipv4_plan(*s, *config) {
            Ok(steps) => r matches Ok(v) && v@ == steps,
            Err((kind, message)) => r matches Err(e) && e.kind == kind && e.message@ == message
                && !e.rolled_back,
        },
{
    let mut steps: Vec<Ipv4Step> = Vec::new();
    match config {
        Ipv4Config::Dhcp { dns_from_dhcp } => {
            if !s.dhcp_enabled {
                steps.push(Ipv4Step::EnableDhcp);
            }
            if s.manual_ipv4.len() > 0 {
                steps.push(Ipv4Step::RemoveCaptured);
            }
            if *dns_from_dhcp && !s.dns_from_dhcp {
                steps.push(Ipv4Step::DnsFromDhcp);
            }
            if *dns_from_dhcp && !s.wins_from_dhcp {
                steps.push(Ipv4Step::WinsFromDhcp);
            }
            assert(steps@ =~= when(!s.dhcp_enabled, Ipv4Step::EnableDhcp) + when(
                s.manual_ipv4@.len() > 0,
                Ipv4Step::RemoveCaptured,
            ) + when(*dns_from_dhcp && !s.dns_from_dhcp, Ipv4Step::DnsFromDhcp) + when(
                *dns_from_dhcp && !s.wins_from_dhcp,
                Ipv4Step::WinsFromDhcp,
            ));
            Ok(steps)
        },
        Ipv4Config::Static { addresses, gateways, dns, wins } => {
            if static_network_matches(s, addresses, gateways, dns, wins) {
                assert(steps@ =~= Seq::<Ipv4Step>::empty());
                return Ok(steps);
            }
            if addresses.len() == 0 {
                return Err(PlatformError::invalid_config(owned("static IPv4 plan contains no addresses")));
            }
            steps.push(Ipv4Step::SetPrimary);
            let n = addresses.len();
            for i in 1..n
                invariant
                    n == addresses@.len(),
                    n >= 1,
                    steps@ =~= seq![Ipv4Step::SetPrimary] + Seq::new(
                        (i - 1) as nat,
                        |k: int| Ipv4Step::AddAddress((k + 1) as usize),
                    ),
            {
                steps.push(Ipv4Step::AddAddress(i));
            }
            let ghost after_addresses = steps@;
            let g = gateways.len();
            if g > 1 {
                for i in 1..g
                    invariant
                        g == gateways@.len(),
                        steps@ =~= after_addresses + Seq::new(
                            (i - 1) as nat,
                            |k: int| Ipv4Step::AddGateway((k + 1) as usize),
                        ),
                {
                    steps.push(Ipv4Step::AddGateway(i));
                }
            }
            let ghost after_gateways = steps@;
            steps.push(Ipv4Step::SetDns);
            steps.push(Ipv4Step::SetWins);
            proof {
                assert(after_addresses =~= seq![Ipv4Step::SetPrimary] + Seq::new(
                    (n - 1) as nat,
                    |k: int| Ipv4Step::AddAddress((k + 1) as usize),
                ));
                assert(after_gateways =~= after_addresses + Seq::new(
                    if g > 0 { (g - 1) as nat } else { 0 },
                    |k: int| Ipv4Step::AddGateway((k + 1) as usize),
                ));
                assert(steps@ =~= after_gateways + seq![Ipv4Step::SetDns, Ipv4Step::SetWins]);
            }
            Ok(steps)
        },
    }
}

/// An adapter's IPv4 state as the inventory shows it at one moment.
pub struct LiveAdapter {
    /// Every IPv4 address on the adapter, manual or not.
    pub addresses: Vec<IpAddressInfo>,
    /// DHCP use, manual addresses, gateways, name servers and their sources.
    pub state: Ipv4Snapshot,
}

/// Whether some address of the list has this text.
pub open spec fn text_present(t: Seq<char>, present: Seq<IpAddressInfo>) -> bool {
    exists|j: int| 0 <= j < present.len() && (#[trigger] present[j]).address@ == t
}

/// The deletions of those addresses (by text) that the adapter still has, in order.
pub open spec fn address_deletions(if_index: u32, texts: Seq<Seq<char>>, present: Seq<IpAddressInfo>) -> Seq<
    Seq<Seq<char>>,
>
    decreases texts.len(),
{
    if texts.len() == 0 {
        Seq::empty()
    } else {
        let rest = address_deletions(if_index, texts.drop_last(), present);
        if text_present(texts.last(), present) {
            rest.push(delete_address_args(if_index, texts.last()))
        } else {
            rest
        }
    }
}

/// The deletions of those default gateways that the adapter still has, in order.
pub open spec fn gateway_deletions(if_index: u32, gateways: Seq<u32>, present: Seq<u32>) -> Seq<
    Seq<Seq<char>>,
>
    decreases gateways.len(),
{
    if gateways.len() == 0 {
        Seq::empty()
    } else {
        let rest = gateway_deletions(if_index, gateways.drop_last(), present);
        if present.contains(gateways.last()) {
            rest.push(delete_gateway_args(if_index, gateways.last()))
        } else {
            rest
        }
    }
}

/// The texts of the addresses of a list.
pub open spec fn address_texts(a: Seq<IpAddressInfo>) -> Seq<Seq<char>> {
    a.map_values(|x: IpAddressInfo| x.address@)
}

/// The message when an adapter is no longer in the inventory.
pub open spec fn gone_text(if_index: u32, when: Seq<char>) -> Seq<char> {
    "adapter if_index="@ + dec(if_index as nat) + " disappeared "@ + when
}

/// The commands of one IPv4 step. `current` is the adapter as the inventory
/// shows it when the step runs; only the removal of captured state reads it.
pub open spec fn step_plan(
    if_index: u32,
    step: Ipv4Step,
    s: Ipv4Snapshot,
    config: Ipv4Config,
    current: Option<LiveAdapter>,
) -> Result<Seq<Seq<Seq<char>>>, (PlatformErrorKind, Seq<char>)> {
    match step {
        Ipv4Step::EnableDhcp => Ok(seq![dhcp_address_args(if_index)]),
        Ipv4Step::RemoveCaptured => match current {
            None => Err((PlatformErrorKind::NotFound, gone_text(if_index, "during network cleanup"@))),
            Some(c) => Ok(
                address_deletions(if_index, address_texts(s.manual_ipv4@), c.addresses@)
                    + gateway_deletions(if_index, s.gateways@, c.state.gateways@),
            ),
        },
        Ipv4Step::DnsFromDhcp => Ok(seq![dns_dhcp_args(if_index)]),
        Ipv4Step::WinsFromDhcp => Ok(seq![wins_dhcp_args(if_index)]),
        _ => match config {
            Ipv4Config::Dhcp { .. } => Ok(Seq::empty()),
            Ipv4Config::Static { addresses, gateways, dns, wins } => Ok(
                match step {
                    Ipv4Step::SetPrimary => if addresses@.len() > 0 {
                        seq![
                            primary_address_args(
                                if_index,
                                network_text(addresses@[0]),
                                if gateways@.len() > 0 {
                                    ipv4_text(gateways@[0])
                                } else {
                                    "none"@
                                },
                            ),
                        ]
                    } else {
                        Seq::empty()
                    },
                    Ipv4Step::AddAddress(i) => if i < addresses@.len() {
                        seq![add_address_args(if_index, network_text(addresses@[i as int]))]
                    } else {
                        Seq::empty()
                    },
                    Ipv4Step::AddGateway(i) => if i < gateways@.len() {
                        seq![add_gateway_args(if_index, ipv4_text(gateways@[i as int]))]
                    } else {
                        Seq::empty()
                    },
                    Ipv4Step::SetDns => dns_commands(if_index, dns@),
                    Ipv4Step::SetWins => wins_commands(if_index, wins@),
                    _ => Seq::empty(),
                },
            ),
        },
    }
}

pub(crate) fn text_on_adapter(t: &String, present: &Vec<IpAddressInfo>) -> (r: bool)
    ensures
        r == text_present(t@, present@),
{
    let n = present.len();
    for j in 0..n
        invariant
            n == present@.len(),
            forall|k: int| 0 <= k < j ==> (#[trigger] present@[k]).address@ != t@,
    {
        let a = owned(present[j].address.as_str());
        if a == *t {
            return true;
        }
    }
    false
}

/// Appends the deletions of those addresses (by text) that the adapter still has.
pub fn push_address_deletions(
    out: &mut Vec<Vec<String>>,
    if_index: u32,
    texts: &Vec<String>,
    present: &Vec<IpAddressInfo>,
)
    ensures
        commands_view(final(out)@) == commands_view(old(out)@) + address_deletions(
            if_index,
            views(texts@),
            present@,
        ),
{
    let ghost start = commands_view(out@);
    let n = texts.len();
    for i in 0..n
        invariant
            n == texts@.len(),
            commands_view(out@) == start + address_deletions(if_index, views(texts@).take(i as int), present@),
    {
        let ghost before = commands_view(out@);
        proof {
            assert(views(texts@).take(i + 1).drop_last() =~= views(texts@).take(i as int));
            assert(views(texts@).take(i + 1).last() == texts@[i as int]@);
        }
        if text_on_adapter(&texts[i], present) {
            push_command(out, delete_address(if_index, texts[i].as_str()));
            proof {
                assert(commands_view(out@) =~= start + address_deletions(
                    if_index,
                    views(texts@).take(i + 1),
                    present@,
                ));
            }
        }
    }
    proof {
        assert(views(texts@).take(n as int) =~= views(texts@));
    }
}

fn has_u32(v: &Vec<u32>, x: u32) -> (r: bool)
    ensures
        r == v@.contains(x),
{
    let n = v.len();
    for j in 0..n
        invariant
            n == v@.len(),
            forall|k: int| 0 <= k < j ==> v@[k] != x,
    {
        if v[j] == x {
            assert(v@[j as int] == x);
            return true;
        }
    }
    false
}

/// Appends the deletions of those default gateways that the adapter still has.
pub fn push_gateway_deletions(out: &mut Vec<Vec<String>>, if_index: u32, gateways: &Vec<u32>, present: &Vec<u32>)
    ensures
        commands_view(final(out)@) == commands_view(old(out)@) + gateway_deletions(
            if_index,
            gateways@,
            present@,
        ),
{
    let ghost start = commands_view(out@);
    let n = gateways.len();
    for i in 0..n
        invariant
            n == gateways@.len(),
            commands_view(out@) == start + gateway_deletions(if_index, gateways@.take(i as int), present@),
    {
        proof {
            assert(gateways@.take(i + 1).drop_last() =~= gateways@.take(i as int));
            assert(gateways@.take(i + 1).last() == gateways@[i as int]);
        }
        if has_u32(present, gateways[i]) {
            push_command(out, delete_gateway(if_index, gateways[i]));
            proof {
                assert(commands_view(out@) =~= start + gateway_deletions(
                    if_index,
                    gateways@.take(i + 1),
                    present@,
                ));
            }
        }
    }
    proof {
        assert(gateways@.take(n as int) =~= gateways@);
    }
}

/// The texts of the addresses of a list.
pub fn address_strings(a: &Vec<IpAddressInfo>) -> (r: Vec<String>)
    ensures
        views(r@) == address_texts(a@),
{
    let mut out: Vec<String> = Vec::new();
    let n = a.len();
    for i in 0..n
        invariant
            n == a@.len(),
            views(out@) =~= address_texts(a@).take(i as int),
    {
        let ghost before = out@;
        let t = owned(a[i].address.as_str());
        let ghost tv = t@;
        out.push(t);
        proof {
            assert(views(out@) =~= views(before).push(tv));
            assert(address_texts(a@).take(i + 1) =~= address_texts(a@).take(i as int).push(tv));
        }
    }
    proof {
        assert(address_texts(a@).take(n as int) =~= address_texts(a@));
    }
    out
}

/// The error for an adapter that is no longer in the inventory.
pub fn adapter_gone(if_index: u32, when: &str) -> (e: PlatformError)
    ensures
        e.kind == PlatformErrorKind::NotFound,
        e.message@ == gone_text(if_index, when@),
        !e.rolled_back,
{
    let mut m = owned("adapter if_index=");
    let d = decimal(if_index as u64);
    append(&mut m, d.as_str());
    append(&mut m, " disappeared ");
    append(&mut m, when);
    PlatformError::not_found(m)
}

/// The `netsh` commands of one step of [`ipv4_steps`], in order.
pub fn step_commands(
    if_index: u32,
    step: Ipv4Step,
    s: &Ipv4Snapshot,
    config: &Ipv4Config,
    current: &Option<LiveAdapter>,
) -> (r: Result<Vec<Vec<String>>, PlatformError>)
    ensures
        match step_plan(if_index, step, *s, *config, *current) {
            Ok(cs) => r matches Ok(v) && commands_view(v@) == cs,
            Err((kind, message)) => r matches Err(e) && e.kind == kind && e.message@ == message
                && !e.rolled_back,
        },
{
    let mut out: Vec<Vec<String>> = Vec::new();
    match step {
        Ipv4Step::EnableDhcp => {
            push_command(&mut out, dhcp_address(if_index));
        },
        Ipv4Step::RemoveCaptured => {
            match current {
                None => {
                    return Err(adapter_gone(if_index, "during network cleanup"));
                },
                Some(c) => {
                    let texts = address_strings(&s.manual_ipv4);
                    push_address_deletions(&mut out, if_index, &texts, &c.addresses);
                    push_gateway_deletions(&mut out, if_index, &s.gateways, &c.state.gateways);
                },
            }
        },
        Ipv4Step::DnsFromDhcp => {
            push_command(&mut out, dns_from_dhcp(if_index));
        },
        Ipv4Step::WinsFromDhcp => {
            push_command(&mut out, wins_from_dhcp(if_index));
        },
        _ => {
            match config {
                Ipv4Config::Dhcp { .. } => {},
                Ipv4Config::Static { addresses, gateways, dns, wins } => {
                    match step {
                        Ipv4Step::SetPrimary => {
                            if addresses.len() > 0 {
                                let a = network_string(&addresses[0]);
                                let g = if gateways.len() > 0 {
                                    ipv4_string(gateways[0])
                                } else {
                                    owned("none")
                                };
                                push_command(&mut out, primary_address(if_index, a.as_str(), g.as_str()));
                            }
                        },
                        Ipv4Step::AddAddress(i) => {
                            if i < addresses.len() {
                                let a = network_string(&addresses[i]);
                                push_command(&mut out, add_address(if_index, a.as_str()));
                            }
                        },
                        Ipv4Step::AddGateway(i) => {
                            if i < gateways.len() {
                                let g = ipv4_string(gateways[i]);
                                push_command(&mut out, add_gateway(if_index, g.as_str()));
                            }
                        },
                        Ipv4Step::SetDns => {
                            extend_commands(&mut out, dns_servers(if_index, dns));
                        },
                        Ipv4Step::SetWins => {
                            extend_commands(&mut out, wins_servers(if_index, wins));
                        },
                        _ => {},
                    }
                },
            }
        },
    }
    proof {
        assert(commands_view(Seq::<Vec<String>>::empty()) =~= Seq::empty());
    }
    Ok(out)
}

} // verus!
