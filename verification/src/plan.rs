//! Deterministic configuration planning.

use vstd::prelude::*;

use crate::codec::{views, Codec};
use crate::config::{
    AdapterConfig, DriverOperation, FirewallConfig, HookConfig, HookStage, IdentityConfig,
    InterfaceSelector, Ipv4Config, NetplanConfig, ServiceConfig, SmbAccount, SmbMapping, SmbShare, RestartPolicy, ServiceState, SmbAccountKind, WifiAction, WifiProfile,
};
use crate::net::{ip_string, ip_text, ipv4_string, ipv4_text, network_string, network_text};
use crate::validate::{profile_name, wifi_profile_name};
use crate::text::{append, debug_string, debug_text, dec, decimal, owned};
use crate::wire::{
    get_opt_text, get_text, get_u8, lemma_get_opt_text, lemma_get_text, lemma_get_u8, lemma_split,
    put_opt_text, put_text, put_u8, read_opt_text, read_text, read_u8, write_opt_text, write_text,
    write_u8,
};

verus! {

/// Risk level of a planned operation.
#[derive(Clone, Copy, Debug, PartialEq, Eq, Structural)]
pub enum OperationRisk {
    /// Does not mutate system state.
    ReadOnly,
    /// Local mutation that should not interrupt connectivity.
    Low,
    /// May interrupt network connectivity.
    Connectivity,
    /// Destructive or difficult-to-recover mutation.
    Destructive,
}

/// One deterministic operation produced by the planner.
#[derive(Clone, Debug, PartialEq, Eq)]
pub struct Operation {
    /// Stable operation identifier within the plan.
    pub id: String,
    /// Capability required by the backend.
    pub capability: String,
    /// Human-readable summary.
    pub summary: String,
    /// Risk classification.
    pub risk: OperationRisk,
    /// Optional target selector summary.
    pub target: Option<String>,
}

impl View for OperationRisk {
    type V = OperationRisk;

    open spec fn view(&self) -> OperationRisk {
        *self
    }
}

/// Wire code of an operation risk.
pub open spec fn risk_code(x: OperationRisk) -> u8 {
    match x {
        OperationRisk::ReadOnly => 0,
        OperationRisk::Low => 1,
        OperationRisk::Connectivity => 2,
        OperationRisk::Destructive => 3,
    }
}

/// The operation risk with a wire code.
pub open spec fn risk_of(c: u8) -> Option<OperationRisk> {
    if c == 0 {
        Some(OperationRisk::ReadOnly)
    }     else if c == 1 {
        Some(OperationRisk::Low)
    }     else if c == 2 {
        Some(OperationRisk::Connectivity)
    }     else if c == 3 {
        Some(OperationRisk::Destructive)
    } else {
        None
    }
}

pub fn risk_to_code(x: OperationRisk) -> (c: u8)
    ensures
        c == risk_code(x),
{
    match x {
        OperationRisk::ReadOnly => 0,
        OperationRisk::Low => 1,
        OperationRisk::Connectivity => 2,
        OperationRisk::Destructive => 3,
    }
}

pub fn risk_from_code(c: u8) -> (x: Option<OperationRisk>)
    ensures
        x == risk_of(c),
{
    if c == 0 {
        Some(OperationRisk::ReadOnly)
    }     else if c == 1 {
        Some(OperationRisk::Low)
    }     else if c == 2 {
        Some(OperationRisk::Connectivity)
    }     else if c == 3 {
        Some(OperationRisk::Destructive)
    } else {
        None
    }
}

/// Mathematical view of an [`Operation`].
pub struct OperationView {
    pub id: Seq<char>,
    pub capability: Seq<char>,
    pub summary: Seq<char>,
    pub risk: OperationRisk,
    pub target: Option<Seq<char>>,
}

impl View for Operation {
    type V = OperationView;

    open spec fn view(&self) -> OperationView {
        OperationView { id: self.id@, capability: self.capability@, summary: self.summary@, risk: self.risk, target: self.target.deep_view() }
    }
}

impl Codec for Operation {
    open spec fn encoding(v: OperationView) -> Seq<u8> {
        put_text(v.id) + put_text(v.capability) + put_text(v.summary) + put_u8(risk_code(v.risk)) + put_opt_text(v.target)
    }

    open spec fn decoding(b: Seq<u8>, p: int) -> Option<(OperationView, int)> {
        match get_text(b, p) {
            Some((id, p1)) => {
                match get_text(b, p1) {
                    Some((capability, p2)) => {
                        match get_text(b, p2) {
                            Some((summary, p3)) => {
                                match get_u8(b, p3) {
                                    Some((c4, p4)) => match risk_of(c4) {
                                        Some(risk) => {
                                            match get_opt_text(b, p4) {
                                                Some((target, p5)) => {
                                                    Some((OperationView { id, capability, summary, risk, target }, p5))
                                                },
                                                None => None,
                                            }
                                        },
                                        None => None,
                                    },
                                    None => None,
                                }
                            },
                            None => None,
                        }
                    },
                    None => None,
                }
            },
            None => None,
        }
    }

    fn write(&self, out: &mut Vec<u8>) {
        let mut t: Vec<u8> = Vec::new();
        write_text(&mut t, self.id.as_str());
        assert(t@ =~= put_text(self.id@));
        write_text(&mut t, self.capability.as_str());
        write_text(&mut t, self.summary.as_str());
        write_u8(&mut t, risk_to_code(self.risk));
        write_opt_text(&mut t, &self.target);
        out.append(&mut t);
    }

    fn read(b: &[u8], p: usize) -> (r: Option<(Self, usize)>) {
        let (id, p1) = read_text(b, p)?;
        let (capability, p2) = read_text(b, p1)?;
        let (summary, p3) = read_text(b, p2)?;
        let (c4, p4) = read_u8(b, p3)?;
        let risk = risk_from_code(c4)?;
        let (target, p5) = read_opt_text(b, p4)?;
        Some((Operation { id, capability, summary, risk, target }, p5))
    }

    proof fn lemma_reads_back(b: Seq<u8>, p: int, v: OperationView) {
        let a0 = put_text(v.id);
        let a1 = put_text(v.capability);
        let a2 = put_text(v.summary);
        let a3 = put_u8(risk_code(v.risk));
        let a4 = put_opt_text(v.target);
        lemma_split(b, p, a0 + a1 + a2 + a3, a4);
        lemma_split(b, p, a0 + a1 + a2, a3);
        lemma_split(b, p, a0 + a1, a2);
        lemma_split(b, p, a0, a1);
        lemma_get_text(b, p, v.id);
        lemma_get_text(b, p + (a0).len(), v.capability);
        lemma_get_text(b, p + (a0 + a1).len(), v.summary);
        lemma_get_u8(b, p + (a0 + a1 + a2).len(), risk_code(v.risk));
        lemma_get_opt_text(b, p + (a0 + a1 + a2 + a3).len(), v.target);
    }

    proof fn lemma_nonempty(v: OperationView) {
    }
}

// ---------------------------------------------------------------------------
// Text helpers
// ---------------------------------------------------------------------------

/// The parts joined by a separator.
pub open spec fn join(parts: Seq<Seq<char>>, sep: Seq<char>) -> Seq<char>
    decreases parts.len(),
{
    if parts.len() == 0 {
        Seq::empty()
    } else if parts.len() == 1 {
        parts[0]
    } else {
        join(parts.drop_last(), sep) + sep + parts.last()
    }
}

/// `Debug` text of a list whose items render as `parts`.
pub open spec fn list_text(parts: Seq<Seq<char>>) -> Seq<char> {
    "["@ + join(parts, ", "@) + "]"@
}

/// The views of a vector of strings.
pub open spec fn texts(v: Seq<String>) -> Seq<Seq<char>> {
    v.map_values(|s: String| s@)
}

fn join_strings(parts: &Vec<String>, sep: &str) -> (r: String)
    ensures
        r@ == join(texts(parts@), sep@),
{
    let n = parts.len();
    if n == 0 {
        return String::new();
    }
    let mut r = owned(parts[0].as_str());
    proof {
        assert(texts(parts@).take(1) =~= seq![parts@[0]@]);
    }
    for i in 1..n
        invariant
            n == parts@.len(),
            n >= 1,
            r@ == join(texts(parts@).take(i as int), sep@),
    {
        append(&mut r, sep);
        append(&mut r, parts[i].as_str());
        proof {
            let t = texts(parts@);
            assert(t.take(i + 1).drop_last() =~= t.take(i as int));
            assert(t.take(i + 1).last() == parts@[i as int]@);
        }
    }
    proof {
        assert(texts(parts@).take(n as int) =~= texts(parts@));
    }
    r
}

fn list_string(parts: &Vec<String>) -> (r: String)
    ensures
        r@ == list_text(texts(parts@)),
{
    let mut r = owned("[");
    let j = join_strings(parts, ", ");
    append(&mut r, j.as_str());
    append(&mut r, "]");
    r
}

fn cat(a: &str, b: &str) -> (r: String)
    ensures
        r@ == a@ + b@,
{
    let mut r = owned(a);
    append(&mut r, b);
    r
}

fn cat3(a: &str, b: &str, c: &str) -> (r: String)
    ensures
        r@ == a@ + b@ + c@,
{
    let mut r = owned(a);
    append(&mut r, b);
    append(&mut r, c);
    r
}

/// `Display` text of a flag.
pub open spec fn bool_text(b: bool) -> Seq<char> {
    if b {
        "true"@
    } else {
        "false"@
    }
}

fn bool_str(b: bool) -> (r: &'static str)
    ensures
        r@ == bool_text(b),
{
    if b {
        "true"
    } else {
        "false"
    }
}

/// `Debug` text of a hook stage.
pub open spec fn stage_debug(s: HookStage) -> Seq<char> {
    match s {
        HookStage::BeforeApply => "BeforeApply"@,
        HookStage::AfterApply => "AfterApply"@,
        HookStage::AfterRollback => "AfterRollback"@,
    }
}

/// Name of a hook stage in operation identifiers.
pub open spec fn stage_name(s: HookStage) -> Seq<char> {
    match s {
        HookStage::BeforeApply => "before_apply"@,
        HookStage::AfterApply => "after_apply"@,
        HookStage::AfterRollback => "after_rollback"@,
    }
}

/// `Debug` text of a restart policy.
pub open spec fn restart_debug(r: RestartPolicy) -> Seq<char> {
    match r {
        RestartPolicy::Never => "Never"@,
        RestartPolicy::IfRequired => "IfRequired"@,
        RestartPolicy::Always => "Always"@,
    }
}

fn stage_debug_str(s: HookStage) -> (r: &'static str)
    ensures
        r@ == stage_debug(s),
{
    match s {
        HookStage::BeforeApply => "BeforeApply",
        HookStage::AfterApply => "AfterApply",
        HookStage::AfterRollback => "AfterRollback",
    }
}

fn stage_name_str(s: HookStage) -> (r: &'static str)
    ensures
        r@ == stage_name(s),
{
    match s {
        HookStage::BeforeApply => "before_apply",
        HookStage::AfterApply => "after_apply",
        HookStage::AfterRollback => "after_rollback",
    }
}

fn restart_debug_str(r: RestartPolicy) -> (s: &'static str)
    ensures
        s@ == restart_debug(r),
{
    match r {
        RestartPolicy::Never => "Never",
        RestartPolicy::IfRequired => "IfRequired",
        RestartPolicy::Always => "Always",
    }
}

// ---------------------------------------------------------------------------
// Selector summaries
// ---------------------------------------------------------------------------

/// One part of a selector summary when the matcher is present.
pub open spec fn part<A>(o: Option<A>, text: spec_fn(A) -> Seq<char>) -> Seq<Seq<char>> {
    match o {
        Some(v) => seq![text(v)],
        None => Seq::empty(),
    }
}

/// The present matchers of a selector, in a fixed order.
pub open spec fn selector_parts(s: InterfaceSelector) -> Seq<Seq<char>> {
    part(s.if_index, |i: u32| "if_index="@ + dec(i as nat)) + part(
        s.name,
        |n: String| "name="@ + debug_text(n@),
    ) + part(s.guid, |g: String| "guid="@ + g@) + part(s.mac_address, |m: String| "mac="@ + m@)
        + part(s.description_contains, |d: String| "description~="@ + debug_text(d@))
}

/// Summary of a selector: its matchers joined by commas.
pub open spec fn selector_summary_text(s: InterfaceSelector) -> Seq<char> {
    join(selector_parts(s), ", "@)
}

/// Summarizes a selector.
pub fn selector_summary(s: &InterfaceSelector) -> (r: String)
    ensures
        r@ == selector_summary_text(*s),
{
    let mut parts: Vec<String> = Vec::new();
    if let Some(i) = s.if_index {
        let d = decimal(i as u64);
        parts.push(cat("if_index=", d.as_str()));
    }
    assert(texts(parts@) =~= part(s.if_index, |i: u32| "if_index="@ + dec(i as nat)));
    let ghost p1 = texts(parts@);
    if let Some(n) = &s.name {
        let d = debug_string(n.as_str());
        parts.push(cat("name=", d.as_str()));
    }
    assert(texts(parts@) =~= p1 + part(s.name, |n: String| "name="@ + debug_text(n@)));
    let ghost p2 = texts(parts@);
    if let Some(g) = &s.guid {
        parts.push(cat("guid=", g.as_str()));
    }
    assert(texts(parts@) =~= p2 + part(s.guid, |g: String| "guid="@ + g@));
    let ghost p3 = texts(parts@);
    if let Some(m) = &s.mac_address {
        parts.push(cat("mac=", m.as_str()));
    }
    assert(texts(parts@) =~= p3 + part(s.mac_address, |m: String| "mac="@ + m@));
    let ghost p4 = texts(parts@);
    if let Some(d) = &s.description_contains {
        let q = debug_string(d.as_str());
        parts.push(cat("description~=", q.as_str()));
    }
    assert(texts(parts@) =~= p4 + part(
        s.description_contains,
        |d: String| "description~="@ + debug_text(d@),
    ));
    join_strings(&parts, ", ")
}

/// Summary of an optional selector.
pub open spec fn opt_summary(s: Option<InterfaceSelector>) -> Option<Seq<char>> {
    match s {
        Some(sel) => Some(selector_summary_text(sel)),
        None => None,
    }
}

fn opt_selector_summary(s: &Option<InterfaceSelector>) -> (r: Option<String>)
    ensures
        r.deep_view() == opt_summary(*s),
{
    match s {
        Some(sel) => Some(selector_summary(sel)),
        None => None,
    }
}

// ---------------------------------------------------------------------------
// The plan
// ---------------------------------------------------------------------------

pub open spec fn opv(
    id: Seq<char>,
    capability: Seq<char>,
    summary: Seq<char>,
    risk: OperationRisk,
    target: Option<Seq<char>>,
) -> OperationView {
    OperationView { id, capability, summary, risk, target }
}

/// The operations of items `0..n`, item by item.
pub open spec fn ops_upto(n: int, f: spec_fn(int) -> Seq<OperationView>) -> Seq<OperationView>
    decreases n,
{
    if n <= 0 {
        Seq::empty()
    } else {
        ops_upto(n - 1, f) + f(n - 1)
    }
}

/// Operations of the hooks of one stage.
pub open spec fn hook_ops(hooks: Seq<HookConfig>, stage: HookStage) -> spec_fn(int) -> Seq<
    OperationView,
> {
    |i: int|
        if hooks[i].stage == stage {
            seq![
                opv(
                    "hook."@ + dec(i as nat) + "."@ + stage_name(stage),
                    "hook.execute"@,
                    "Execute "@ + debug_text(hooks[i].program@) + " at "@ + stage_debug(stage),
                    OperationRisk::Destructive,
                    None,
                ),
            ]
        } else {
            Seq::empty()
        }
}

/// The operation setting one identity field, when it is present.
pub open spec fn identity_field_ops(field: Seq<char>, value: Option<String>) -> Seq<OperationView> {
    match value {
        Some(v) => seq![
            opv(
                "identity."@ + field,
                "identity."@ + field + ".apply"@,
                "Set "@ + field + " to "@ + v@,
                OperationRisk::Connectivity,
                None,
            ),
        ],
        None => Seq::empty(),
    }
}

pub open spec fn identity_ops(identity: Option<IdentityConfig>) -> Seq<OperationView> {
    match identity {
        Some(id) => identity_field_ops("computer_name"@, id.computer_name) + identity_field_ops(
            "workgroup"@,
            id.workgroup,
        ) + identity_field_ops("dns_suffix"@, id.dns_suffix),
        None => Seq::empty(),
    }
}

/// Summary of an IPv4 configuration.
pub open spec fn ipv4_summary(cfg: Ipv4Config) -> Seq<char> {
    match cfg {
        Ipv4Config::Dhcp { dns_from_dhcp } => "Configure IPv4 using DHCP (DNS from DHCP: "@
            + bool_text(dns_from_dhcp) + ")"@,
        Ipv4Config::Static { addresses, gateways, dns, wins } => "Configure static IPv4 addresses "@
            + list_text(addresses@.map_values(|a: crate::config::Ipv4Network| network_text(a)))
            + ", gateways "@ + list_text(gateways@.map_values(|g: u32| ipv4_text(g))) + ", DNS "@
            + list_text(dns@.map_values(|d: crate::config::IpAddress| ip_text(d))) + ", WINS "@
            + list_text(wins@.map_values(|w: u32| ipv4_text(w))),
    }
}

pub open spec fn adapter_state_op(i: int, enabled: bool, target: Seq<char>) -> OperationView {
    opv(
        "adapter."@ + dec(i as nat) + ".enabled"@,
        "adapter.state.apply"@,
        if enabled {
            "Enable adapter"@
        } else {
            "Disable adapter"@
        },
        OperationRisk::Connectivity,
        Some(target),
    )
}

/// Operations of one adapter: enable, MAC address, IPv4, then disable.
pub open spec fn adapter_ops(adapters: Seq<AdapterConfig>) -> spec_fn(int) -> Seq<OperationView> {
    |i: int|
        {
            let a = adapters[i];
            let t = selector_summary_text(a.selector);
            (if a.enabled == Some(true) {
                seq![adapter_state_op(i, true, t)]
            } else {
                Seq::empty()
            }) + match a.mac_address {
                Some(mac) => seq![
                    opv(
                        "adapter."@ + dec(i as nat) + ".mac"@,
                        "adapter.mac.apply"@,
                        "Set adapter MAC address to "@ + mac@,
                        OperationRisk::Connectivity,
                        Some(t),
                    ),
                ],
                None => Seq::empty(),
            } + match a.ipv4 {
                Some(cfg) => seq![
                    opv(
                        "adapter."@ + dec(i as nat) + ".ipv4"@,
                        "adapter.ipv4.apply"@,
                        ipv4_summary(cfg),
                        OperationRisk::Connectivity,
                        Some(t),
                    ),
                ],
                None => Seq::empty(),
            } + (if a.enabled == Some(false) {
                seq![adapter_state_op(i, false, t)]
            } else {
                Seq::empty()
            })
        }
}

pub open spec fn wifi_ops(wifi: Seq<WifiProfile>) -> spec_fn(int) -> Seq<OperationView> {
    |i: int|
        seq![
            opv(
                "wifi.profile."@ + dec(i as nat),
                "wifi.profile.apply"@,
                "Install Wi-Fi profile "@ + debug_text(profile_name(wifi[i])) + " for SSID "@
                    + debug_text(wifi[i].ssid@),
                OperationRisk::Connectivity,
                opt_summary(wifi[i].selector),
            ),
        ]
}

pub open spec fn action_ops(actions: Seq<WifiAction>) -> spec_fn(int) -> Seq<OperationView> {
    |i: int|
        match actions[i] {
            WifiAction::Scan { selector } => seq![
                opv(
                    "wifi.action."@ + dec(i as nat) + ".scan"@,
                    "wifi.scan"@,
                    "Scan for available Wi-Fi networks"@,
                    OperationRisk::ReadOnly,
                    opt_summary(selector),
                ),
            ],
            WifiAction::Connect { selector, profile } => seq![
                opv(
                    "wifi.action."@ + dec(i as nat) + ".connect"@,
                    "wifi.connect"@,
                    "Connect using Wi-Fi profile "@ + debug_text(profile@),
                    OperationRisk::Connectivity,
                    opt_summary(selector),
                ),
            ],
            WifiAction::Disconnect { selector } => seq![
                opv(
                    "wifi.action."@ + dec(i as nat) + ".disconnect"@,
                    "wifi.disconnect"@,
                    "Disconnect Wi-Fi interface"@,
                    OperationRisk::Connectivity,
                    opt_summary(selector),
                ),
            ],
        }
}

pub open spec fn service_ops(services: Seq<ServiceConfig>) -> spec_fn(int) -> Seq<OperationView> {
    |i: int|
        seq![
            opv(
                "service."@ + dec(i as nat) + ".state"@,
                "service.apply"@,
                (if services[i].state == ServiceState::Running {
                    "Start"@
                } else {
                    "Stop"@
                }) + " Windows service "@ + debug_text(services[i].name@),
                OperationRisk::Low,
                Some(services[i].name@),
            ),
        ]
}

pub open spec fn account_ops(accounts: Seq<SmbAccount>) -> spec_fn(int) -> Seq<OperationView> {
    |i: int|
        if accounts[i].kind == SmbAccountKind::Local {
            seq![
                opv(
                    "smb.account."@ + dec(i as nat),
                    "smb.account.apply"@,
                    "Ensure SMB account "@ + debug_text(accounts[i].id@) + " for user "@
                        + debug_text(accounts[i].username@),
                    OperationRisk::Low,
                    Some(accounts[i].id@),
                ),
            ]
        } else {
            Seq::empty()
        }
}

pub open spec fn share_ops(shares: Seq<SmbShare>) -> spec_fn(int) -> Seq<OperationView> {
    |i: int|
        seq![
            opv(
                "smb.share."@ + dec(i as nat),
                "smb.share.apply"@,
                "Share "@ + debug_text(shares[i].path@) + " as "@ + debug_text(shares[i].name@),
                OperationRisk::Low,
                Some(shares[i].name@),
            ),
        ]
}

pub open spec fn mapping_ops(mappings: Seq<SmbMapping>) -> spec_fn(int) -> Seq<OperationView> {
    |i: int|
        seq![
            opv(
                "smb.mapping."@ + dec(i as nat),
                "smb.mapping.apply"@,
                "Map SMB share "@ + debug_text(mappings[i].remote@),
                OperationRisk::Low,
                mappings[i].local.deep_view(),
            ),
        ]
}

pub open spec fn firewall_ops(f: Option<FirewallConfig>) -> Seq<OperationView> {
    match f {
        Some(fw) => seq![
            opv(
                "firewall.enabled"@,
                "firewall.apply"@,
                if fw.enabled {
                    "Enable Windows firewall"@
                } else {
                    "Disable Windows firewall"@
                },
                OperationRisk::Low,
                None,
            ),
        ],
        None => Seq::empty(),
    }
}

pub open spec fn driver_ops(drivers: Seq<DriverOperation>) -> spec_fn(int) -> Seq<OperationView> {
    |i: int|
        match drivers[i] {
            DriverOperation::Install { inf_path, hardware_id, force, restart } => seq![
                opv(
                    "driver."@ + dec(i as nat) + ".install"@,
                    if force {
                        "driver.force_install"@
                    } else {
                        "driver.install"@
                    },
                    "Install driver INF "@ + debug_text(inf_path@) + " (force: "@ + bool_text(force)
                        + ", restart: "@ + restart_debug(restart) + ")"@,
                    OperationRisk::Destructive,
                    hardware_id.deep_view(),
                ),
            ],
            DriverOperation::RestartAdapter { selector } => seq![
                opv(
                    "driver."@ + dec(i as nat) + ".restart_adapter"@,
                    "adapter.restart"@,
                    "Restart network adapter"@,
                    OperationRisk::Destructive,
                    Some(selector_summary_text(selector)),
                ),
            ],
        }
}

/// The ordered plan of a configuration: hooks before apply, identity,
/// adapters, Wi-Fi profiles and actions, services, SMB accounts, shares and
/// mappings, firewall, drivers, then hooks after apply and after rollback.
pub open spec fn plan_of(c: NetplanConfig) -> Seq<OperationView> {
    ops_upto(c.hooks@.len() as int, hook_ops(c.hooks@, HookStage::BeforeApply)) + identity_ops(
        c.identity,
    ) + ops_upto(c.adapters@.len() as int, adapter_ops(c.adapters@)) + ops_upto(
        c.wifi@.len() as int,
        wifi_ops(c.wifi@),
    ) + ops_upto(c.wifi_actions@.len() as int, action_ops(c.wifi_actions@)) + ops_upto(
        c.services@.len() as int,
        service_ops(c.services@),
    ) + ops_upto(c.smb.accounts@.len() as int, account_ops(c.smb.accounts@)) + ops_upto(
        c.smb.shares@.len() as int,
        share_ops(c.smb.shares@),
    ) + ops_upto(c.smb.mappings@.len() as int, mapping_ops(c.smb.mappings@)) + firewall_ops(
        c.firewall,
    ) + ops_upto(c.drivers@.len() as int, driver_ops(c.drivers@)) + ops_upto(
        c.hooks@.len() as int,
        hook_ops(c.hooks@, HookStage::AfterApply),
    ) + ops_upto(c.hooks@.len() as int, hook_ops(c.hooks@, HookStage::AfterRollback))
}

/// An adapter that the configuration enables is enabled first, before its
/// MAC address and IPv4 settings; one that it disables is disabled last,
/// after them. A service's operation starts it when it must run and stops it
/// otherwise.
pub proof fn lemma_adapter_and_service_operations_follow_configuration(
    adapters: Seq<AdapterConfig>,
    services: Seq<ServiceConfig>,
    i: int,
    j: int,
)
    requires
        0 <= i < adapters.len(),
        0 <= j < services.len(),
    ensures
        ({
            let ops = adapter_ops(adapters)(i);
            &&& adapters[i].enabled == Some(true) ==> (ops.len() > 0 && ops[0].summary == "Enable adapter"@
                && ops[0].id == "adapter."@ + dec(i as nat) + ".enabled"@)
            &&& adapters[i].enabled == Some(false) ==> (ops.len() > 0 && ops.last().summary
                == "Disable adapter"@ && ops.last().id == "adapter."@ + dec(i as nat) + ".enabled"@)
            &&& adapters[i].enabled is None ==> forall|k: int|
                0 <= k < ops.len() ==> (#[trigger] ops[k]).capability != "adapter.state.apply"@
        }),
        service_ops(services)(j)[0].summary == (if services[j].state == ServiceState::Running {
            "Start"@
        } else {
            "Stop"@
        }) + " Windows service "@ + debug_text(services[j].name@),
{
    let a = adapters[i];
    let ops = adapter_ops(adapters)(i);
    if a.enabled is None {
        reveal_strlit("adapter.state.apply");
        reveal_strlit("adapter.mac.apply");
        reveal_strlit("adapter.ipv4.apply");
        assert("adapter.state.apply"@[8] != "adapter.mac.apply"@[8]);
        assert("adapter.state.apply"@[8] != "adapter.ipv4.apply"@[8]);
        assert forall|k: int| 0 <= k < ops.len() implies (#[trigger] ops[k]).capability != "adapter.state.apply"@ by {
            if a.mac_address is Some && k == 0 {
                assert(ops[k].capability == "adapter.mac.apply"@);
            } else {
                assert(ops[k].capability == "adapter.ipv4.apply"@);
            }
        }
    }
}

/// A configured firewall gets an operation `firewall.enabled` whose summary
/// enables the firewall when the configuration enables it and disables it
/// when the configuration disables it.
pub proof fn lemma_firewall_operation_follows_configuration(c: NetplanConfig)
    requires
        c.firewall is Some,
    ensures
        exists|k: int|
            0 <= k < plan_of(c).len() && (#[trigger] plan_of(c)[k]).id == "firewall.enabled"@
                && plan_of(c)[k].capability == "firewall.apply"@ && plan_of(c)[k].summary == (if c.firewall->0.enabled {
                "Enable Windows firewall"@
            } else {
                "Disable Windows firewall"@
            }),
{
    let pre = ops_upto(c.hooks@.len() as int, hook_ops(c.hooks@, HookStage::BeforeApply)) + identity_ops(
        c.identity,
    ) + ops_upto(c.adapters@.len() as int, adapter_ops(c.adapters@)) + ops_upto(
        c.wifi@.len() as int,
        wifi_ops(c.wifi@),
    ) + ops_upto(c.wifi_actions@.len() as int, action_ops(c.wifi_actions@)) + ops_upto(
        c.services@.len() as int,
        service_ops(c.services@),
    ) + ops_upto(c.smb.accounts@.len() as int, account_ops(c.smb.accounts@)) + ops_upto(
        c.smb.shares@.len() as int,
        share_ops(c.smb.shares@),
    ) + ops_upto(c.smb.mappings@.len() as int, mapping_ops(c.smb.mappings@));
    let x = pre + firewall_ops(c.firewall);
    let k = pre.len() as int;
    assert(x[k] == firewall_ops(c.firewall)[0]);
    let rest1 = ops_upto(c.drivers@.len() as int, driver_ops(c.drivers@));
    let rest2 = ops_upto(c.hooks@.len() as int, hook_ops(c.hooks@, HookStage::AfterApply));
    let rest3 = ops_upto(c.hooks@.len() as int, hook_ops(c.hooks@, HookStage::AfterRollback));
    assert(plan_of(c) == x + rest1 + rest2 + rest3);
    assert(plan_of(c)[k] == x[k]);
}

// ---------------------------------------------------------------------------
// Building the plan
// ---------------------------------------------------------------------------

fn push_op(out: &mut Vec<Operation>, op: Operation)
    ensures
        views(final(out)@) == views(old(out)@) + seq![op@],
{
    let ghost v = op@;
    out.push(op);
    assert(views(out@) =~= views(old(out)@) + seq![v]);
}

fn indexed(prefix: &str, i: usize, suffix: &str) -> (r: String)
    ensures
        r@ == prefix@ + dec(i as nat) + suffix@,
{
    let mut r = owned(prefix);
    let d = decimal(i as u64);
    append(&mut r, d.as_str());
    append(&mut r, suffix);
    r
}

fn push_hooks(out: &mut Vec<Operation>, hooks: &Vec<HookConfig>, stage: HookStage)
    ensures
        views(final(out)@) == views(old(out)@) + ops_upto(hooks@.len() as int, hook_ops(hooks@, stage)),
{
    let ghost start = views(out@);
    let n = hooks.len();
    for i in 0..n
        invariant
            n == hooks@.len(),
            views(out@) == start + ops_upto(i as int, hook_ops(hooks@, stage)),
    {
        if hooks[i].stage == stage {
            let id = indexed("hook.", i, ".");
            let mut id = id;
            append(&mut id, stage_name_str(stage));
            let d = debug_string(hooks[i].program.as_str());
            let mut summary = cat("Execute ", d.as_str());
            append(&mut summary, " at ");
            append(&mut summary, stage_debug_str(stage));
            push_op(
                out,
                Operation {
                    id,
                    capability: owned("hook.execute"),
                    summary,
                    risk: OperationRisk::Destructive,
                    target: None,
                },
            );
        }
        assert(views(out@) =~= start + ops_upto(i + 1, hook_ops(hooks@, stage)));
    }
}

fn push_identity_field(out: &mut Vec<Operation>, field: &str, value: &Option<String>)
    ensures
        views(final(out)@) == views(old(out)@) + identity_field_ops(field@, *value),
{
    if let Some(v) = value {
        let id = cat("identity.", field);
        let capability = cat3("identity.", field, ".apply");
        let mut summary = cat3("Set ", field, " to ");
        append(&mut summary, v.as_str());
        push_op(
            out,
            Operation { id, capability, summary, risk: OperationRisk::Connectivity, target: None },
        );
    } else {
        assert(views(out@) =~= views(old(out)@) + identity_field_ops(field@, *value));
    }
}

fn push_identity(out: &mut Vec<Operation>, identity: &Option<IdentityConfig>)
    ensures
        views(final(out)@) == views(old(out)@) + identity_ops(*identity),
{
    match identity {
        Some(id) => {
            push_identity_field(out, "computer_name", &id.computer_name);
            push_identity_field(out, "workgroup", &id.workgroup);
            push_identity_field(out, "dns_suffix", &id.dns_suffix);
            assert(views(out@) =~= views(old(out)@) + identity_ops(*identity));
        },
        None => {
            assert(views(out@) =~= views(old(out)@) + identity_ops(*identity));
        },
    }
}

fn ipv4_summary_string(cfg: &Ipv4Config) -> (r: String)
    ensures
        r@ == ipv4_summary(*cfg),
{
    match cfg {
        Ipv4Config::Dhcp { dns_from_dhcp } => cat3(
            "Configure IPv4 using DHCP (DNS from DHCP: ",
            bool_str(*dns_from_dhcp),
            ")",
        ),
        Ipv4Config::Static { addresses, gateways, dns, wins } => {
            let mut a: Vec<String> = Vec::new();
            for i in 0..addresses.len()
                invariant
                    texts(a@) =~= addresses@.take(i as int).map_values(
                        |x: crate::config::Ipv4Network| network_text(x),
                    ),
            {
                let item = network_string(&addresses[i]);
                let ghost prev = texts(a@);
                let ghost iv = item@;
                let ghost f = |x: crate::config::Ipv4Network| network_text(x);
                a.push(item);
                proof {
                    assert(texts(a@) =~= prev.push(iv));
                    assert(addresses@.take(i + 1).map_values(f) =~= addresses@.take(i as int).map_values(f).push(
                        f(addresses@[i as int]),
                    ));
                }
            }
            assert(addresses@.take(addresses@.len() as int) =~= addresses@);
            let mut g: Vec<String> = Vec::new();
            for i in 0..gateways.len()
                invariant
                    texts(g@) =~= gateways@.take(i as int).map_values(|x: u32| ipv4_text(x)),
            {
                let item = ipv4_string(gateways[i]);
                let ghost prev = texts(g@);
                let ghost iv = item@;
                let ghost f = |x: u32| ipv4_text(x);
                g.push(item);
                proof {
                    assert(texts(g@) =~= prev.push(iv));
                    assert(gateways@.take(i + 1).map_values(f) =~= gateways@.take(i as int).map_values(f).push(
                        f(gateways@[i as int]),
                    ));
                }
            }
            assert(gateways@.take(gateways@.len() as int) =~= gateways@);
            let mut d: Vec<String> = Vec::new();
            for i in 0..dns.len()
                invariant
                    texts(d@) =~= dns@.take(i as int).map_values(
                        |x: crate::config::IpAddress| ip_text(x),
                    ),
            {
                let item = ip_string(dns[i]);
                let ghost prev = texts(d@);
                let ghost iv = item@;
                let ghost f = |x: crate::config::IpAddress| ip_text(x);
                d.push(item);
                proof {
                    assert(texts(d@) =~= prev.push(iv));
                    assert(dns@.take(i + 1).map_values(f) =~= dns@.take(i as int).map_values(f).push(
                        f(dns@[i as int]),
                    ));
                }
            }
            assert(dns@.take(dns@.len() as int) =~= dns@);
            let mut w: Vec<String> = Vec::new();
            for i in 0..wins.len()
                invariant
                    texts(w@) =~= wins@.take(i as int).map_values(|x: u32| ipv4_text(x)),
            {
                let item = ipv4_string(wins[i]);
                let ghost prev = texts(w@);
                let ghost iv = item@;
                let ghost f = |x: u32| ipv4_text(x);
                w.push(item);
                proof {
                    assert(texts(w@) =~= prev.push(iv));
                    assert(wins@.take(i + 1).map_values(f) =~= wins@.take(i as int).map_values(f).push(
                        f(wins@[i as int]),
                    ));
                }
            }
            assert(wins@.take(wins@.len() as int) =~= wins@);
            let mut r = owned("Configure static IPv4 addresses ");
            let s1 = list_string(&a);
            append(&mut r, s1.as_str());
            append(&mut r, ", gateways ");
            let s2 = list_string(&g);
            append(&mut r, s2.as_str());
            append(&mut r, ", DNS ");
            let s3 = list_string(&d);
            append(&mut r, s3.as_str());
            append(&mut r, ", WINS ");
            let s4 = list_string(&w);
            append(&mut r, s4.as_str());
            r
        },
    }
}

fn adapter_state_operation(i: usize, enabled: bool, target: &String) -> (op: Operation)
    ensures
        op@ == adapter_state_op(i as int, enabled, target@),
{
    Operation {
        id: indexed("adapter.", i, ".enabled"),
        capability: owned("adapter.state.apply"),
        summary: owned(
            if enabled {
                "Enable adapter"
            } else {
                "Disable adapter"
            },
        ),
        risk: OperationRisk::Connectivity,
        target: Some(target.clone()),
    }
}

fn push_adapter(out: &mut Vec<Operation>, adapters: &Vec<AdapterConfig>, i: usize)
    requires
        i < adapters@.len(),
    ensures
        views(final(out)@) == views(old(out)@) + adapter_ops(adapters@)(i as int),
{
    let a = &adapters[i];
    let target = selector_summary(&a.selector);
    let ghost t = target@;
    let ghost start = views(out@);
    if a.enabled == Some(true) {
        push_op(out, adapter_state_operation(i, true, &target));
    }
    let ghost s1 = views(out@);
    if let Some(mac) = &a.mac_address {
        push_op(
            out,
            Operation {
                id: indexed("adapter.", i, ".mac"),
                capability: owned("adapter.mac.apply"),
                summary: cat("Set adapter MAC address to ", mac.as_str()),
                risk: OperationRisk::Connectivity,
                target: Some(target.clone()),
            },
        );
    }
    let ghost s2 = views(out@);
    if let Some(cfg) = &a.ipv4 {
        push_op(
            out,
            Operation {
                id: indexed("adapter.", i, ".ipv4"),
                capability: owned("adapter.ipv4.apply"),
                summary: ipv4_summary_string(cfg),
                risk: OperationRisk::Connectivity,
                target: Some(target.clone()),
            },
        );
    }
    let ghost s3 = views(out@);
    if a.enabled == Some(false) {
        push_op(out, adapter_state_operation(i, false, &target));
    }
    proof {
        let e1: Seq<OperationView> = if a.enabled == Some(true) {
            seq![adapter_state_op(i as int, true, t)]
        } else {
            Seq::empty()
        };
        assert(s1 =~= start + e1);
        assert(views(out@) =~= start + adapter_ops(adapters@)(i as int));
    }
}

fn push_adapters(out: &mut Vec<Operation>, adapters: &Vec<AdapterConfig>)
    ensures
        views(final(out)@) == views(old(out)@) + ops_upto(adapters@.len() as int, adapter_ops(adapters@)),
{
    let ghost start = views(out@);
    let n = adapters.len();
    for i in 0..n
        invariant
            n == adapters@.len(),
            views(out@) == start + ops_upto(i as int, adapter_ops(adapters@)),
    {
        push_adapter(out, adapters, i);
        assert(views(out@) =~= start + ops_upto(i + 1, adapter_ops(adapters@)));
    }
}

fn push_wifi(out: &mut Vec<Operation>, wifi: &Vec<WifiProfile>)
    ensures
        views(final(out)@) == views(old(out)@) + ops_upto(wifi@.len() as int, wifi_ops(wifi@)),
{
    let ghost start = views(out@);
    let n = wifi.len();
    for i in 0..n
        invariant
            n == wifi@.len(),
            views(out@) == start + ops_upto(i as int, wifi_ops(wifi@)),
    {
        let w = &wifi[i];
        let name = debug_string(wifi_profile_name(w));
        let ssid = debug_string(w.ssid.as_str());
        let mut summary = cat("Install Wi-Fi profile ", name.as_str());
        append(&mut summary, " for SSID ");
        append(&mut summary, ssid.as_str());
        push_op(
            out,
            Operation {
                id: indexed("wifi.profile.", i, ""),
                capability: owned("wifi.profile.apply"),
                summary,
                risk: OperationRisk::Connectivity,
                target: opt_selector_summary(&w.selector),
            },
        );
        proof {
            reveal_strlit("");
        }
        assert(views(out@) =~= start + ops_upto(i + 1, wifi_ops(wifi@)));
    }
}

fn push_actions(out: &mut Vec<Operation>, actions: &Vec<WifiAction>)
    ensures
        views(final(out)@) == views(old(out)@) + ops_upto(actions@.len() as int, action_ops(actions@)),
{
    let ghost start = views(out@);
    let n = actions.len();
    for i in 0..n
        invariant
            n == actions@.len(),
            views(out@) == start + ops_upto(i as int, action_ops(actions@)),
    {
        let op = match &actions[i] {
            WifiAction::Scan { selector } => Operation {
                id: indexed("wifi.action.", i, ".scan"),
                capability: owned("wifi.scan"),
                summary: owned("Scan for available Wi-Fi networks"),
                risk: OperationRisk::ReadOnly,
                target: opt_selector_summary(selector),
            },
            WifiAction::Connect { selector, profile } => {
                let d = debug_string(profile.as_str());
                Operation {
                    id: indexed("wifi.action.", i, ".connect"),
                    capability: owned("wifi.connect"),
                    summary: cat("Connect using Wi-Fi profile ", d.as_str()),
                    risk: OperationRisk::Connectivity,
                    target: opt_selector_summary(selector),
                }
            },
            WifiAction::Disconnect { selector } => Operation {
                id: indexed("wifi.action.", i, ".disconnect"),
                capability: owned("wifi.disconnect"),
                summary: owned("Disconnect Wi-Fi interface"),
                risk: OperationRisk::Connectivity,
                target: opt_selector_summary(selector),
            },
        };
        push_op(out, op);
        assert(views(out@) =~= start + ops_upto(i + 1, action_ops(actions@)));
    }
}

fn push_services(out: &mut Vec<Operation>, services: &Vec<ServiceConfig>)
    ensures
        views(final(out)@) == views(old(out)@) + ops_upto(services@.len() as int, service_ops(services@)),
{
    let ghost start = views(out@);
    let n = services.len();
    for i in 0..n
        invariant
            n == services@.len(),
            views(out@) == start + ops_upto(i as int, service_ops(services@)),
    {
        let s = &services[i];
        let verb = match s.state {
            ServiceState::Running => "Start",
            ServiceState::Stopped => "Stop",
        };
        let d = debug_string(s.name.as_str());
        let summary = cat3(verb, " Windows service ", d.as_str());
        push_op(
            out,
            Operation {
                id: indexed("service.", i, ".state"),
                capability: owned("service.apply"),
                summary,
                risk: OperationRisk::Low,
                target: Some(s.name.clone()),
            },
        );
        assert(views(out@) =~= start + ops_upto(i + 1, service_ops(services@)));
    }
}

fn push_accounts(out: &mut Vec<Operation>, accounts: &Vec<SmbAccount>)
    ensures
        views(final(out)@) == views(old(out)@) + ops_upto(accounts@.len() as int, account_ops(accounts@)),
{
    let ghost start = views(out@);
    let n = accounts.len();
    for i in 0..n
        invariant
            n == accounts@.len(),
            views(out@) == start + ops_upto(i as int, account_ops(accounts@)),
    {
        let a = &accounts[i];
        if a.kind == SmbAccountKind::Local {
            let id = debug_string(a.id.as_str());
            let user = debug_string(a.username.as_str());
            let mut summary = cat3("Ensure SMB account ", id.as_str(), " for user ");
            append(&mut summary, user.as_str());
            push_op(
                out,
                Operation {
                    id: indexed("smb.account.", i, ""),
                    capability: owned("smb.account.apply"),
                    summary,
                    risk: OperationRisk::Low,
                    target: Some(a.id.clone()),
                },
            );
            proof {
                reveal_strlit("");
            }
        }
        assert(views(out@) =~= start + ops_upto(i + 1, account_ops(accounts@)));
    }
}

fn push_shares(out: &mut Vec<Operation>, shares: &Vec<SmbShare>)
    ensures
        views(final(out)@) == views(old(out)@) + ops_upto(shares@.len() as int, share_ops(shares@)),
{
    let ghost start = views(out@);
    let n = shares.len();
    for i in 0..n
        invariant
            n == shares@.len(),
            views(out@) == start + ops_upto(i as int, share_ops(shares@)),
    {
        let s = &shares[i];
        let path = debug_string(s.path.as_str());
        let name = debug_string(s.name.as_str());
        let summary = cat3("Share ", path.as_str(), " as ");
        let mut summary = summary;
        append(&mut summary, name.as_str());
        push_op(
            out,
            Operation {
                id: indexed("smb.share.", i, ""),
                capability: owned("smb.share.apply"),
                summary,
                risk: OperationRisk::Low,
                target: Some(s.name.clone()),
            },
        );
        proof {
            reveal_strlit("");
        }
        assert(views(out@) =~= start + ops_upto(i + 1, share_ops(shares@)));
    }
}

fn push_mappings(out: &mut Vec<Operation>, mappings: &Vec<SmbMapping>)
    ensures
        views(final(out)@) == views(old(out)@) + ops_upto(mappings@.len() as int, mapping_ops(mappings@)),
{
    let ghost start = views(out@);
    let n = mappings.len();
    for i in 0..n
        invariant
            n == mappings@.len(),
            views(out@) == start + ops_upto(i as int, mapping_ops(mappings@)),
    {
        let m = &mappings[i];
        let remote = debug_string(m.remote.as_str());
        let target = match &m.local {
            Some(l) => Some(l.clone()),
            None => None,
        };
        push_op(
            out,
            Operation {
                id: indexed("smb.mapping.", i, ""),
                capability: owned("smb.mapping.apply"),
                summary: cat("Map SMB share ", remote.as_str()),
                risk: OperationRisk::Low,
                target,
            },
        );
        proof {
            reveal_strlit("");
        }
        assert(views(out@) =~= start + ops_upto(i + 1, mapping_ops(mappings@)));
    }
}

fn push_firewall(out: &mut Vec<Operation>, firewall: &Option<FirewallConfig>)
    ensures
        views(final(out)@) == views(old(out)@) + firewall_ops(*firewall),
{
    match firewall {
        Some(fw) => {
            push_op(
                out,
                Operation {
                    id: owned("firewall.enabled"),
                    capability: owned("firewall.apply"),
                    summary: owned(
                        if fw.enabled {
                            "Enable Windows firewall"
                        } else {
                            "Disable Windows firewall"
                        },
                    ),
                    risk: OperationRisk::Low,
                    target: None,
                },
            );
        },
        None => {
            assert(views(out@) =~= views(old(out)@) + firewall_ops(*firewall));
        },
    }
}

fn push_drivers(out: &mut Vec<Operation>, drivers: &Vec<DriverOperation>)
    ensures
        views(final(out)@) == views(old(out)@) + ops_upto(drivers@.len() as int, driver_ops(drivers@)),
{
    let ghost start = views(out@);
    let n = drivers.len();
    for i in 0..n
        invariant
            n == drivers@.len(),
            views(out@) == start + ops_upto(i as int, driver_ops(drivers@)),
    {
        let op = match &drivers[i] {
            DriverOperation::Install { inf_path, hardware_id, force, restart } => {
                let inf = debug_string(inf_path.as_str());
                let mut summary = cat3("Install driver INF ", inf.as_str(), " (force: ");
                append(&mut summary, bool_str(*force));
                append(&mut summary, ", restart: ");
                append(&mut summary, restart_debug_str(*restart));
                append(&mut summary, ")");
                let target = match hardware_id {
                    Some(h) => Some(h.clone()),
                    None => None,
                };
                Operation {
                    id: indexed("driver.", i, ".install"),
                    capability: owned(
                        if *force {
                            "driver.force_install"
                        } else {
                            "driver.install"
                        },
                    ),
                    summary,
                    risk: OperationRisk::Destructive,
                    target,
                }
            },
            DriverOperation::RestartAdapter { selector } => Operation {
                id: indexed("driver.", i, ".restart_adapter"),
                capability: owned("adapter.restart"),
                summary: owned("Restart network adapter"),
                risk: OperationRisk::Destructive,
                target: Some(selector_summary(selector)),
            },
        };
        push_op(out, op);
        assert(views(out@) =~= start + ops_upto(i + 1, driver_ops(drivers@)));
    }
}

/// Build a deterministic ordered plan from a validated configuration.
pub fn build_plan(config: &NetplanConfig) -> (ops: Vec<Operation>)
    ensures
        views(ops@) == plan_of(*config),
{
    let mut ops: Vec<Operation> = Vec::new();
    push_hooks(&mut ops, &config.hooks, HookStage::BeforeApply);
    push_identity(&mut ops, &config.identity);
    push_adapters(&mut ops, &config.adapters);
    push_wifi(&mut ops, &config.wifi);
    push_actions(&mut ops, &config.wifi_actions);
    push_services(&mut ops, &config.services);
    push_accounts(&mut ops, &config.smb.accounts);
    push_shares(&mut ops, &config.smb.shares);
    push_mappings(&mut ops, &config.smb.mappings);
    push_firewall(&mut ops, &config.firewall);
    push_drivers(&mut ops, &config.drivers);
    push_hooks(&mut ops, &config.hooks, HookStage::AfterApply);
    push_hooks(&mut ops, &config.hooks, HookStage::AfterRollback);
    assert(views(ops@) =~= plan_of(*config));
    ops
}

} // verus!
