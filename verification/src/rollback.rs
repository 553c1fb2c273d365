//! The rollback actions that a live apply registers, in the order it makes
//! its changes: identity, adapters, Wi-Fi profiles and actions, services, SMB
//! accounts, shares and mappings, and the firewall. A failed apply runs them
//! last first (`transaction::rollback_order`).

use vstd::prelude::*;

use crate::config::{AdapterConfig, NetplanConfig, ServiceConfig, ServiceState, SmbAccount, SmbAccountKind, WifiAction};
use crate::live::firewall_changes;
use crate::smb::creates_account;
use crate::text::{eq_ignore_case, str_eq_ignore_case};

verus! {

/// A registered rollback action; positions index the configuration's lists,
/// and identity values are put back as they were observed.
#[derive(Clone, Copy, Debug, PartialEq, Eq, Structural)]
pub enum Undo {
    /// Put back the observed computer name.
    ComputerName,
    /// Put back the observed workgroup.
    Workgroup,
    /// Put back the observed primary DNS suffix.
    DnsSuffix,
    /// Set the adapter's administrative state back.
    AdapterState { adapter: usize, enabled: bool },
    /// Put back the adapter's previous MAC address, restarting it if it was
    /// enabled during the apply.
    AdapterMac { adapter: usize, restart: bool },
    /// Restore the adapter's captured IPv4 state.
    AdapterIpv4 { adapter: usize },
    /// Put back (or delete) the Wi-Fi profile.
    WifiProfile { profile: usize },
    /// Reconnect the interface of a Wi-Fi action to its previous profile.
    WifiConnection { action: usize },
    /// Bring the service back to whether it ran.
    Service { service: usize, running: bool },
    /// Delete the created account.
    Account { account: usize },
    /// Put back (or delete) the share.
    Share { share: usize },
    /// Cancel the mapping.
    Mapping { mapping: usize },
    /// Put back each firewall profile's state.
    Firewall,
}

/// What the apply reads from the machine before it changes it.
pub struct Observed {
    /// Computer name before the apply.
    pub computer_name: String,
    /// Workgroup before the apply.
    pub workgroup: String,
    /// Primary DNS suffix before the apply.
    pub dns_suffix: String,
    /// For each configured adapter, whether it was administratively enabled.
    pub admin_enabled: Vec<bool>,
    /// For each configured adapter, whether its IPv4 configuration changes
    /// anything (`ipv4::ipv4_steps` gives steps).
    pub ipv4_changes: Vec<bool>,
    /// For each configured service, whether it was running.
    pub services_running: Vec<bool>,
    /// For each declared SMB account, whether it existed.
    pub accounts_exist: Vec<bool>,
    /// For each SMB mapping, whether it was already in place.
    pub mappings_in_place: Vec<bool>,
    /// State of the domain, private and public firewall profiles.
    pub firewall: (bool, bool, bool),
}

/// The observation fits the configuration: one entry per listed item.
pub open spec fn observed_fits(c: NetplanConfig, o: Observed) -> bool {
    &&& o.admin_enabled@.len() == c.adapters@.len()
    &&& o.ipv4_changes@.len() == c.adapters@.len()
    &&& o.services_running@.len() == c.services@.len()
    &&& o.accounts_exist@.len() == c.smb.accounts@.len()
    &&& o.mappings_in_place@.len() == c.smb.mappings@.len()
}

/// The action when the condition holds, else nothing.
pub open spec fn undo_if(b: bool, u: Undo) -> Seq<Undo> {
    if b {
        seq![u]
    } else {
        Seq::empty()
    }
}

/// Whether a configured name differs from the observed one.
pub open spec fn name_changes(configured: Option<String>, observed: Seq<char>) -> bool {
    configured matches Some(n) && !eq_ignore_case(observed, n@)
}

/// Identity changes, each registered after it is made.
pub open spec fn identity_undo(c: NetplanConfig, o: Observed) -> Seq<Undo> {
    match c.identity {
        None => Seq::empty(),
        Some(id) => undo_if(name_changes(id.computer_name, o.computer_name@), Undo::ComputerName) + undo_if(
            name_changes(id.workgroup, o.workgroup@),
            Undo::Workgroup,
        ) + undo_if(name_changes(id.dns_suffix, o.dns_suffix@), Undo::DnsSuffix),
    }
}

/// The actions one adapter registers: enabling, the MAC address, the IPv4
/// state when it changed, and disabling (see `live::adapter_plan`).
pub open spec fn adapter_undo(i: int, a: AdapterConfig, admin: bool, changed: bool) -> Seq<Undo> {
    undo_if(
        a.enabled == Some(true) && !admin,
        Undo::AdapterState { adapter: i as usize, enabled: false },
    ) + undo_if(
        a.mac_address is Some,
        Undo::AdapterMac { adapter: i as usize, restart: a.enabled == Some(true) || admin },
    ) + undo_if(a.ipv4 is Some && changed, Undo::AdapterIpv4 { adapter: i as usize }) + undo_if(
        a.enabled == Some(false) && admin,
        Undo::AdapterState { adapter: i as usize, enabled: true },
    )
}

/// The actions of the adapters, in order.
pub open spec fn adapters_undo(adapters: Seq<AdapterConfig>, admin: Seq<bool>, changed: Seq<bool>) -> Seq<Undo>
    decreases adapters.len(),
{
    if adapters.len() == 0 {
        Seq::empty()
    } else {
        let i = adapters.len() - 1;
        adapters_undo(adapters.drop_last(), admin, changed) + adapter_undo(i, adapters[i], admin[i], changed[i])
    }
}

/// One action per Wi-Fi profile, in order.
pub open spec fn profiles_undo(n: nat) -> Seq<Undo> {
    Seq::new(n, |i: int| Undo::WifiProfile { profile: i as usize })
}

/// One action per connect or disconnect action, in order.
pub open spec fn actions_undo(actions: Seq<WifiAction>) -> Seq<Undo>
    decreases actions.len(),
{
    if actions.len() == 0 {
        Seq::empty()
    } else {
        let i = actions.len() - 1;
        actions_undo(actions.drop_last()) + undo_if(
            !(actions[i] is Scan),
            Undo::WifiConnection { action: i as usize },
        )
    }
}

/// One action per service whose running state changes, in order.
pub open spec fn services_undo(services: Seq<ServiceConfig>, running: Seq<bool>) -> Seq<Undo>
    decreases services.len(),
{
    if services.len() == 0 {
        Seq::empty()
    } else {
        let i = services.len() - 1;
        services_undo(services.drop_last(), running) + undo_if(
            running[i] != (services[i].state == ServiceState::Running),
            Undo::Service { service: i as usize, running: running[i] },
        )
    }
}

/// One action per local account that is created, in order.
pub open spec fn accounts_undo(accounts: Seq<SmbAccount>, exist: Seq<bool>) -> Seq<Undo>
    decreases accounts.len(),
{
    if accounts.len() == 0 {
        Seq::empty()
    } else {
        let i = accounts.len() - 1;
        accounts_undo(accounts.drop_last(), exist) + undo_if(
            accounts[i].kind == SmbAccountKind::Local && !exist[i],
            Undo::Account { account: i as usize },
        )
    }
}

/// One action per share, in order.
pub open spec fn shares_undo(n: nat) -> Seq<Undo> {
    Seq::new(n, |i: int| Undo::Share { share: i as usize })
}

/// One action per mapping that is not in place yet, in order.
pub open spec fn mappings_undo(in_place: Seq<bool>) -> Seq<Undo>
    decreases in_place.len(),
{
    if in_place.len() == 0 {
        Seq::empty()
    } else {
        let i = in_place.len() - 1;
        mappings_undo(in_place.drop_last()) + undo_if(!in_place[i], Undo::Mapping { mapping: i as usize })
    }
}

/// The firewall action, when a profile differs from the configured state.
pub open spec fn firewall_undo(c: NetplanConfig, o: Observed) -> Seq<Undo> {
    match c.firewall {
        None => Seq::empty(),
        Some(f) => undo_if(
            !(o.firewall.0 == f.enabled && o.firewall.1 == f.enabled && o.firewall.2 == f.enabled),
            Undo::Firewall,
        ),
    }
}

/// Every action that a successful live apply registers, in the order of its
/// changes.
pub open spec fn registered_undo(c: NetplanConfig, o: Observed) -> Seq<Undo> {
    identity_undo(c, o) + adapters_undo(c.adapters@, o.admin_enabled@, o.ipv4_changes@) + profiles_undo(
        c.wifi@.len(),
    ) + actions_undo(c.wifi_actions@) + services_undo(c.services@, o.services_running@) + accounts_undo(
        c.smb.accounts@,
        o.accounts_exist@,
    ) + shares_undo(c.smb.shares@.len()) + mappings_undo(o.mappings_in_place@) + firewall_undo(c, o)
}

fn push_if(out: &mut Vec<Undo>, b: bool, u: Undo)
    ensures
        final(out)@ == old(out)@ + undo_if(b, u),
{
    if b {
        out.push(u);
    }
    proof {
        assert(final(out)@ =~= old(out)@ + undo_if(b, u));
    }
}

fn name_change(configured: &Option<String>, observed: &String) -> (r: bool)
    ensures
        r == name_changes(*configured, observed@),
{
    match configured {
        Some(n) => !str_eq_ignore_case(observed.as_str(), n.as_str()),
        None => false,
    }
}

/// The rollback actions that a successful live apply registers, in the order
/// it makes its changes; a failed one runs those it registered so far, last
/// first.
pub fn registered_rollback(config: &NetplanConfig, observed: &Observed) -> (r: Vec<Undo>)
    requires
        observed_fits(*config, *observed),
    ensures
        r@ == registered_undo(*config, *observed),
{
    let c = config;
    let o = observed;
    let mut out: Vec<Undo> = Vec::new();
    match &c.identity {
        None => {},
        Some(id) => {
            push_if(&mut out, name_change(&id.computer_name, &o.computer_name), Undo::ComputerName);
            push_if(&mut out, name_change(&id.workgroup, &o.workgroup), Undo::Workgroup);
            push_if(&mut out, name_change(&id.dns_suffix, &o.dns_suffix), Undo::DnsSuffix);
        },
    }
    proof {
        assert(out@ =~= identity_undo(*c, *o));
    }
    let ghost p0 = out@;
    let n = c.adapters.len();
    for i in 0..n
        invariant
            n == c.adapters@.len(),
            observed_fits(*c, *o),
            out@ == p0 + adapters_undo(c.adapters@.take(i as int), o.admin_enabled@, o.ipv4_changes@),
    {
        proof {
            assert(c.adapters@.take(i + 1).drop_last() =~= c.adapters@.take(i as int));
            assert(c.adapters@.take(i + 1)[i as int] == c.adapters@[i as int]);
        }
        let a = &c.adapters[i];
        let admin = o.admin_enabled[i];
        let enable = match a.enabled {
            Some(e) => e,
            None => false,
        };
        let disable = match a.enabled {
            Some(e) => !e,
            None => false,
        };
        let ghost before = out@;
        push_if(&mut out, enable && !admin, Undo::AdapterState { adapter: i, enabled: false });
        push_if(&mut out, a.mac_address.is_some(), Undo::AdapterMac { adapter: i, restart: enable || admin });
        push_if(&mut out, a.ipv4.is_some() && o.ipv4_changes[i], Undo::AdapterIpv4 { adapter: i });
        push_if(&mut out, disable && admin, Undo::AdapterState { adapter: i, enabled: true });
        proof {
            assert(out@ =~= before + adapter_undo(i as int, *a, admin, o.ipv4_changes@[i as int]));
        }
    }
    proof {
        assert(c.adapters@.take(n as int) =~= c.adapters@);
    }
    let ghost p1 = out@;
    let w = c.wifi.len();
    for i in 0..w
        invariant
            w == c.wifi@.len(),
            out@ == p1 + profiles_undo(i as nat),
    {
        out.push(Undo::WifiProfile { profile: i });
        proof {
            assert(profiles_undo((i + 1) as nat) =~= profiles_undo(i as nat).push(Undo::WifiProfile { profile: i }));
        }
    }
    let ghost p2 = out@;
    let m = c.wifi_actions.len();
    for i in 0..m
        invariant
            m == c.wifi_actions@.len(),
            out@ == p2 + actions_undo(c.wifi_actions@.take(i as int)),
    {
        proof {
            assert(c.wifi_actions@.take(i + 1).drop_last() =~= c.wifi_actions@.take(i as int));
            assert(c.wifi_actions@.take(i + 1)[i as int] == c.wifi_actions@[i as int]);
        }
        let scan = match &c.wifi_actions[i] {
            WifiAction::Scan { .. } => true,
            _ => false,
        };
        let ghost before = out@;
        push_if(&mut out, !scan, Undo::WifiConnection { action: i });
        proof {
            assert(out@ =~= before + undo_if(!(c.wifi_actions@[i as int] is Scan), Undo::WifiConnection { action: i }));
        }
    }
    proof {
        assert(c.wifi_actions@.take(m as int) =~= c.wifi_actions@);
    }
    let ghost p3 = out@;
    let k = c.services.len();
    for i in 0..k
        invariant
            k == c.services@.len(),
            observed_fits(*c, *o),
            out@ == p3 + services_undo(c.services@.take(i as int), o.services_running@),
    {
        proof {
            assert(c.services@.take(i + 1).drop_last() =~= c.services@.take(i as int));
            assert(c.services@.take(i + 1)[i as int] == c.services@[i as int]);
        }
        let running = o.services_running[i];
        let should = match c.services[i].state {
            ServiceState::Running => true,
            ServiceState::Stopped => false,
        };
        push_if(&mut out, running != should, Undo::Service { service: i, running });
    }
    proof {
        assert(c.services@.take(k as int) =~= c.services@);
    }
    let ghost p4 = out@;
    let q = c.smb.accounts.len();
    for i in 0..q
        invariant
            q == c.smb.accounts@.len(),
            observed_fits(*c, *o),
            out@ == p4 + accounts_undo(c.smb.accounts@.take(i as int), o.accounts_exist@),
    {
        proof {
            assert(c.smb.accounts@.take(i + 1).drop_last() =~= c.smb.accounts@.take(i as int));
            assert(c.smb.accounts@.take(i + 1)[i as int] == c.smb.accounts@[i as int]);
        }
        let created = creates_account(c.smb.accounts[i].kind, o.accounts_exist[i]);
        push_if(&mut out, created, Undo::Account { account: i });
    }
    proof {
        assert(c.smb.accounts@.take(q as int) =~= c.smb.accounts@);
    }
    let ghost p5 = out@;
    let h = c.smb.shares.len();
    for i in 0..h
        invariant
            h == c.smb.shares@.len(),
            out@ == p5 + shares_undo(i as nat),
    {
        out.push(Undo::Share { share: i });
        proof {
            assert(shares_undo((i + 1) as nat) =~= shares_undo(i as nat).push(Undo::Share { share: i }));
        }
    }
    let ghost p6 = out@;
    let g = o.mappings_in_place.len();
    for i in 0..g
        invariant
            g == o.mappings_in_place@.len(),
            out@ == p6 + mappings_undo(o.mappings_in_place@.take(i as int)),
    {
        proof {
            assert(o.mappings_in_place@.take(i + 1).drop_last() =~= o.mappings_in_place@.take(i as int));
            assert(o.mappings_in_place@.take(i + 1)[i as int] == o.mappings_in_place@[i as int]);
        }
        push_if(&mut out, !o.mappings_in_place[i], Undo::Mapping { mapping: i });
    }
    proof {
        assert(o.mappings_in_place@.take(g as int) =~= o.mappings_in_place@);
    }
    match &c.firewall {
        None => {},
        Some(f) => {
            let (d, p, u) = o.firewall;
            push_if(&mut out, firewall_changes(d, p, u, f.enabled), Undo::Firewall);
        },
    }
    proof {
        assert(out@ =~= registered_undo(*c, *o));
    }
    out
}

} // verus!
