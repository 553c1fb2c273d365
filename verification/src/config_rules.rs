//! Validation of a whole configuration document: every rule, in the order in
//! which the first violated one is reported.

use vstd::prelude::*;

use crate::checks::{
    agrees, check_identity, check_mac, check_selector, first_problem, identity_problem,
    lemma_first_problem_at, lemma_first_problem_none, mac_problem, quote_after, quoted_message,
    selector_problem,
};
use crate::config::{
    AdapterConfig, ConfigFormat, DriverOperation, HookConfig, InterfaceSelector, NetplanConfig, RestartPolicy,
    ServiceConfig, ServiceState, SmbAccount, SmbMapping, WifiAction, WifiProfile,
};
use crate::error::Error;
use crate::matcher::{check_protected, protected_problem};
use crate::text;
use crate::text::{append, debug_text, owned};
use crate::validate::{
    account_check, blank_or_nul, check_accounts, check_ipv4, check_secret, check_shares,
    check_wifi_actions, check_wifi_duplicates, check_wifi_profile, drive_letter, find_account,
    find_smb_account, ipv4_problem, is_drive_letter, is_unc_share, secret_problem, share_check,
    unc_share, wifi_action_check, wifi_dup_check, wifi_profile_problem,
};

verus! {

/// The first of two problems.
pub open spec fn first_of(a: Option<Seq<char>>, b: Option<Seq<char>>) -> Option<Seq<char>> {
    if a is Some {
        a
    } else {
        b
    }
}

// ---------------------------------------------------------------------------
// Selectors
// ---------------------------------------------------------------------------

pub open spec fn protect_selector_check(protect: Seq<InterfaceSelector>) -> spec_fn(int) -> Option<
    Seq<char>,
> {
    |i: int| selector_problem(protect[i])
}

pub open spec fn adapter_selector_check(adapters: Seq<AdapterConfig>) -> spec_fn(int) -> Option<
    Seq<char>,
> {
    |i: int| selector_problem(adapters[i].selector)
}

pub open spec fn optional_selector_problem(s: Option<InterfaceSelector>) -> Option<Seq<char>> {
    match s {
        Some(sel) => selector_problem(sel),
        None => None,
    }
}

pub open spec fn wifi_selector_check(wifi: Seq<WifiProfile>) -> spec_fn(int) -> Option<Seq<char>> {
    |i: int| optional_selector_problem(wifi[i].selector)
}

/// The selector an action names, if any.
pub open spec fn action_selector(a: WifiAction) -> Option<InterfaceSelector> {
    match a {
        WifiAction::Scan { selector } => selector,
        WifiAction::Connect { selector, .. } => selector,
        WifiAction::Disconnect { selector } => selector,
    }
}

pub open spec fn action_selector_check(actions: Seq<WifiAction>) -> spec_fn(int) -> Option<
    Seq<char>,
> {
    |i: int| optional_selector_problem(action_selector(actions[i]))
}

pub open spec fn driver_selector_check(drivers: Seq<DriverOperation>) -> spec_fn(int) -> Option<
    Seq<char>,
> {
    |i: int|
        match drivers[i] {
            DriverOperation::RestartAdapter { selector } => selector_problem(selector),
            DriverOperation::Install { .. } => None,
        }
}

/// A configuration whose adapter targets a protected management interface
/// by the same name (equal ignoring ASCII case) is refused by validation.
pub proof fn lemma_protected_name_target_is_refused(c: NetplanConfig, j: int, i: int)
    requires
        0 <= j < c.protect.management_interfaces@.len(),
        0 <= i < c.adapters@.len(),
        c.protect.management_interfaces@[j].name is Some,
        c.adapters@[i].selector.name is Some,
        text::eq_ignore_case(
            c.protect.management_interfaces@[j].name->0@,
            c.adapters@[i].selector.name->0@,
        ),
    ensures
        config_problem(c) is Some,
{
    let protect = c.protect.management_interfaces@;
    crate::matcher::lemma_same_name_is_protected(protect, j, c.adapters@[i].selector);
    let f = adapter_check(protect, c.adapters@);
    assert(f(i) is Some);
    crate::checks::lemma_first_problem_some(0, i, c.adapters@.len() as int, f);
}

/// The first problem among all interface selectors: the protected ones, then
/// those of adapters, Wi-Fi profiles, Wi-Fi actions and driver operations.
pub open spec fn selectors_problem(c: NetplanConfig) -> Option<Seq<char>> {
    first_of(
        first_problem(
            0,
            c.protect.management_interfaces@.len() as int,
            protect_selector_check(c.protect.management_interfaces@),
        ),
        first_of(
            first_problem(0, c.adapters@.len() as int, adapter_selector_check(c.adapters@)),
            first_of(
                first_problem(0, c.wifi@.len() as int, wifi_selector_check(c.wifi@)),
                first_of(
                    first_problem(
                        0,
                        c.wifi_actions@.len() as int,
                        action_selector_check(c.wifi_actions@),
                    ),
                    first_problem(0, c.drivers@.len() as int, driver_selector_check(c.drivers@)),
                ),
            ),
        ),
    )
}

fn check_optional_selector(s: &Option<InterfaceSelector>) -> (r: Result<(), String>)
    ensures
        agrees(r, optional_selector_problem(*s)),
{
    match s {
        Some(sel) => check_selector(sel),
        None => Ok(()),
    }
}

fn check_protect_selectors(protect: &Vec<InterfaceSelector>) -> (r: Result<(), String>)
    ensures
        agrees(r, first_problem(0, protect@.len() as int, protect_selector_check(protect@))),
{
    let ghost f = protect_selector_check(protect@);
    let n = protect.len();
    for i in 0..n
        invariant
            n == protect@.len(),
            f == protect_selector_check(protect@),
            forall|j: int| 0 <= j < i ==> (#[trigger] f(j)) is None,
    {
        if let Err(m) = check_selector(&protect[i]) {
            proof {
                lemma_first_problem_at(0, i as int, n as int, f);
            }
            return Err(m);
        }
    }
    proof {
        lemma_first_problem_none(0, n as int, f);
    }
    Ok(())
}

fn check_adapter_selectors(adapters: &Vec<AdapterConfig>) -> (r: Result<(), String>)
    ensures
        agrees(r, first_problem(0, adapters@.len() as int, adapter_selector_check(adapters@))),
{
    let ghost f = adapter_selector_check(adapters@);
    let n = adapters.len();
    for i in 0..n
        invariant
            n == adapters@.len(),
            f == adapter_selector_check(adapters@),
            forall|j: int| 0 <= j < i ==> (#[trigger] f(j)) is None,
    {
        if let Err(m) = check_selector(&adapters[i].selector) {
            proof {
                lemma_first_problem_at(0, i as int, n as int, f);
            }
            return Err(m);
        }
    }
    proof {
        lemma_first_problem_none(0, n as int, f);
    }
    Ok(())
}

fn check_wifi_selectors(wifi: &Vec<WifiProfile>) -> (r: Result<(), String>)
    ensures
        agrees(r, first_problem(0, wifi@.len() as int, wifi_selector_check(wifi@))),
{
    let ghost f = wifi_selector_check(wifi@);
    let n = wifi.len();
    for i in 0..n
        invariant
            n == wifi@.len(),
            f == wifi_selector_check(wifi@),
            forall|j: int| 0 <= j < i ==> (#[trigger] f(j)) is None,
    {
        if let Err(m) = check_optional_selector(&wifi[i].selector) {
            proof {
                lemma_first_problem_at(0, i as int, n as int, f);
            }
            return Err(m);
        }
    }
    proof {
        lemma_first_problem_none(0, n as int, f);
    }
    Ok(())
}

fn check_action_selectors(actions: &Vec<WifiAction>) -> (r: Result<(), String>)
    ensures
        agrees(r, first_problem(0, actions@.len() as int, action_selector_check(actions@))),
{
    let ghost f = action_selector_check(actions@);
    let n = actions.len();
    for i in 0..n
        invariant
            n == actions@.len(),
            f == action_selector_check(actions@),
            forall|j: int| 0 <= j < i ==> (#[trigger] f(j)) is None,
    {
        let sel = match &actions[i] {
            WifiAction::Scan { selector } => selector,
            WifiAction::Connect { selector, .. } => selector,
            WifiAction::Disconnect { selector } => selector,
        };
        if let Err(m) = check_optional_selector(sel) {
            proof {
                lemma_first_problem_at(0, i as int, n as int, f);
            }
            return Err(m);
        }
    }
    proof {
        lemma_first_problem_none(0, n as int, f);
    }
    Ok(())
}

fn check_driver_selectors(drivers: &Vec<DriverOperation>) -> (r: Result<(), String>)
    ensures
        agrees(r, first_problem(0, drivers@.len() as int, driver_selector_check(drivers@))),
{
    let ghost f = driver_selector_check(drivers@);
    let n = drivers.len();
    for i in 0..n
        invariant
            n == drivers@.len(),
            f == driver_selector_check(drivers@),
            forall|j: int| 0 <= j < i ==> (#[trigger] f(j)) is None,
    {
        if let DriverOperation::RestartAdapter { selector } = &drivers[i] {
            if let Err(m) = check_selector(selector) {
                proof {
                    lemma_first_problem_at(0, i as int, n as int, f);
                }
                return Err(m);
            }
        }
    }
    proof {
        lemma_first_problem_none(0, n as int, f);
    }
    Ok(())
}

fn check_selectors(c: &NetplanConfig) -> (r: Result<(), String>)
    ensures
        agrees(r, selectors_problem(*c)),
{
    check_protect_selectors(&c.protect.management_interfaces)?;
    check_adapter_selectors(&c.adapters)?;
    check_wifi_selectors(&c.wifi)?;
    check_action_selectors(&c.wifi_actions)?;
    check_driver_selectors(&c.drivers)
}

// ---------------------------------------------------------------------------
// Adapters
// ---------------------------------------------------------------------------

/// Problem of the adapter at index `i`: a protected target, then its MAC
/// address, then its IPv4 settings.
pub open spec fn adapter_check(protect: Seq<InterfaceSelector>, adapters: Seq<AdapterConfig>) -> spec_fn(
    int,
) -> Option<Seq<char>> {
    |i: int|
        first_of(
            protected_problem(protect, adapters[i].selector),
            first_of(
                match adapters[i].mac_address {
                    Some(m) => mac_problem(m@),
                    None => None,
                },
                match adapters[i].ipv4 {
                    Some(cfg) => ipv4_problem(cfg),
                    None => None,
                },
            ),
        )
}

fn check_adapters(protect: &Vec<InterfaceSelector>, adapters: &Vec<AdapterConfig>) -> (r: Result<
    (),
    String,
>)
    ensures
        agrees(r, first_problem(0, adapters@.len() as int, adapter_check(protect@, adapters@))),
{
    let ghost f = adapter_check(protect@, adapters@);
    let n = adapters.len();
    for i in 0..n
        invariant
            n == adapters@.len(),
            f == adapter_check(protect@, adapters@),
            forall|j: int| 0 <= j < i ==> (#[trigger] f(j)) is None,
    {
        let a = &adapters[i];
        let step = match check_protected(protect, &a.selector) {
            Err(m) => Err(m),
            Ok(()) => match &a.mac_address {
                Some(mac) => match check_mac(mac.as_str()) {
                    Err(m) => Err(m),
                    Ok(()) => match &a.ipv4 {
                        Some(cfg) => check_ipv4(cfg),
                        None => Ok(()),
                    },
                },
                None => match &a.ipv4 {
                    Some(cfg) => check_ipv4(cfg),
                    None => Ok(()),
                },
            },
        };
        if let Err(m) = step {
            proof {
                lemma_first_problem_at(0, i as int, n as int, f);
            }
            return Err(m);
        }
    }
    proof {
        lemma_first_problem_none(0, n as int, f);
    }
    Ok(())
}

pub open spec fn wifi_check(protect: Seq<InterfaceSelector>, wifi: Seq<WifiProfile>) -> spec_fn(
    int,
) -> Option<Seq<char>> {
    |i: int| wifi_profile_problem(protect, wifi[i])
}

fn check_wifi_profiles(protect: &Vec<InterfaceSelector>, wifi: &Vec<WifiProfile>) -> (r: Result<
    (),
    String,
>)
    ensures
        agrees(r, first_problem(0, wifi@.len() as int, wifi_check(protect@, wifi@))),
{
    let ghost f = wifi_check(protect@, wifi@);
    let n = wifi.len();
    for i in 0..n
        invariant
            n == wifi@.len(),
            f == wifi_check(protect@, wifi@),
            forall|j: int| 0 <= j < i ==> (#[trigger] f(j)) is None,
    {
        if let Err(m) = check_wifi_profile(protect, &wifi[i]) {
            proof {
                lemma_first_problem_at(0, i as int, n as int, f);
            }
            return Err(m);
        }
    }
    proof {
        lemma_first_problem_none(0, n as int, f);
    }
    Ok(())
}

// ---------------------------------------------------------------------------
// SMB drive mappings
// ---------------------------------------------------------------------------

/// An earlier mapping uses the drive letter `l`.
pub open spec fn drive_taken(mappings: Seq<SmbMapping>, i: int, l: Seq<char>) -> bool {
    exists|j: int|
        0 <= j < i && ((#[trigger] mappings[j]).local matches Some(o) && text::eq_ignore_case(
            o@,
            l,
        ))
}

/// Problem of the SMB drive mapping at index `i`.
pub open spec fn mapping_check(accounts: Seq<SmbAccount>, mappings: Seq<SmbMapping>) -> spec_fn(
    int,
) -> Option<Seq<char>> {
    |i: int|
        {
            let m = mappings[i];
            if !unc_share(m.remote@) || text::has_char(m.remote@, '\0') {
                Some("SMB mapping "@ + debug_text(m.remote@) + " must be a UNC share path"@)
            } else if m.local matches Some(l) && !drive_letter(l@) {
                Some("invalid SMB drive letter "@ + debug_text(m.local->0@))
            } else if m.local matches Some(l) && drive_taken(mappings, i, l@) {
                Some("duplicate SMB drive mapping for "@ + debug_text(m.local->0@))
            } else if m.account matches Some(a) && find_account(accounts, a@) is None {
                Some("unknown SMB account reference "@ + debug_text(m.account->0@))
            } else if m.account is Some && (m.username is Some || m.password is Some) {
                Some(
                    "SMB mapping "@ + debug_text(m.remote@)
                        + " cannot combine account with inline credentials"@,
                )
            } else if m.password is Some && m.username is None {
                Some(
                    "SMB mapping "@ + debug_text(m.remote@)
                        + " provides a password without a username"@,
                )
            } else {
                secret_problem(m.password)
            }
        }
}

fn drive_seen(mappings: &Vec<SmbMapping>, n: usize, l: &str) -> (r: bool)
    requires
        n <= mappings@.len(),
    ensures
        r == drive_taken(mappings@, n as int, l@),
{
    for j in 0..n
        invariant
            n <= mappings@.len(),
            forall|k: int|
                0 <= k < j ==> !((#[trigger] mappings@[k]).local matches Some(o)
                    && text::eq_ignore_case(o@, l@)),
    {
        if let Some(o) = &mappings[j].local {
            if text::str_eq_ignore_case(o.as_str(), l) {
                return true;
            }
        }
    }
    false
}

fn mapping_problem_at(accounts: &Vec<SmbAccount>, mappings: &Vec<SmbMapping>, i: usize) -> (r:
    Result<(), String>)
    requires
        i < mappings@.len(),
    ensures
        agrees(r, mapping_check(accounts@, mappings@)(i as int)),
{
    let m = &mappings[i];
    if !is_unc_share(m.remote.as_str()) || text::str_has_char(m.remote.as_str(), '\0') {
        return Err(quoted_message("SMB mapping ", m.remote.as_str(), " must be a UNC share path"));
    }
    if let Some(l) = &m.local {
        if !is_drive_letter(l.as_str()) {
            return Err(quote_after("invalid SMB drive letter ", l.as_str()));
        }
        if drive_seen(mappings, i, l.as_str()) {
            return Err(quote_after("duplicate SMB drive mapping for ", l.as_str()));
        }
    }
    if let Some(a) = &m.account {
        if find_smb_account(accounts, a.as_str()).is_none() {
            return Err(quote_after("unknown SMB account reference ", a.as_str()));
        }
        if m.username.is_some() || m.password.is_some() {
            return Err(
                quoted_message(
                    "SMB mapping ",
                    m.remote.as_str(),
                    " cannot combine account with inline credentials",
                ),
            );
        }
    }
    if m.password.is_some() && m.username.is_none() {
        return Err(
            quoted_message(
                "SMB mapping ",
                m.remote.as_str(),
                " provides a password without a username",
            ),
        );
    }
    check_secret(&m.password)
}

fn check_mappings(accounts: &Vec<SmbAccount>, mappings: &Vec<SmbMapping>) -> (r: Result<
    (),
    String,
>)
    ensures
        agrees(r, first_problem(0, mappings@.len() as int, mapping_check(accounts@, mappings@))),
{
    let ghost f = mapping_check(accounts@, mappings@);
    let n = mappings.len();
    for i in 0..n
        invariant
            n == mappings@.len(),
            f == mapping_check(accounts@, mappings@),
            forall|j: int| 0 <= j < i ==> (#[trigger] f(j)) is None,
    {
        if let Err(m) = mapping_problem_at(accounts, mappings, i) {
            proof {
                lemma_first_problem_at(0, i as int, n as int, f);
            }
            return Err(m);
        }
    }
    proof {
        lemma_first_problem_none(0, n as int, f);
    }
    Ok(())
}

// ---------------------------------------------------------------------------
// Services
// ---------------------------------------------------------------------------

/// Characters a Windows service name must not hold.
pub open spec fn service_forbidden() -> Seq<char> {
    seq!['\\', '/', '\0']
}

/// Problem of the service operation at index `i`.
pub open spec fn service_check(services: Seq<ServiceConfig>) -> spec_fn(int) -> Option<Seq<char>> {
    |i: int|
        {
            let name = services[i].name@;
            if text::blank(name) || text::byte_len(name) > 256 || text::has_any(
                name,
                service_forbidden(),
            ) {
                Some("invalid Windows service name "@ + debug_text(name))
            } else if exists|j: int|
                0 <= j < i && text::eq_ignore_case((#[trigger] services[j]).name@, name) {
                Some("duplicate service operation for "@ + debug_text(name))
            } else {
                None
            }
        }
}

fn service_problem_at(services: &Vec<ServiceConfig>, i: usize) -> (r: Result<(), String>)
    requires
        i < services@.len(),
    ensures
        agrees(r, service_check(services@)(i as int)),
{
    let name = services[i].name.as_str();
    let forbidden = ['\\', '/', '\0'];
    proof {
        assert(forbidden@ =~= service_forbidden());
    }
    if text::str_is_blank(name) || text::str_byte_len(name) > 256 || text::str_has_any(
        name,
        &forbidden,
    ) {
        return Err(quote_after("invalid Windows service name ", name));
    }
    for j in 0..i
        invariant
            i < services@.len(),
            name@ == services@[i as int].name@,
            !(text::blank(name@) || text::byte_len(name@) > 256 || text::has_any(
                name@,
                service_forbidden(),
            )),
            forall|k: int|
                0 <= k < j ==> !text::eq_ignore_case((#[trigger] services@[k]).name@, name@),
    {
        if text::str_eq_ignore_case(services[j].name.as_str(), name) {
            assert(text::eq_ignore_case(services@[j as int].name@, name@));
            return Err(quote_after("duplicate service operation for ", name));
        }
    }
    Ok(())
}

fn check_services(services: &Vec<ServiceConfig>) -> (r: Result<(), String>)
    ensures
        agrees(r, first_problem(0, services@.len() as int, service_check(services@))),
{
    let ghost f = service_check(services@);
    let n = services.len();
    for i in 0..n
        invariant
            n == services@.len(),
            f == service_check(services@),
            forall|j: int| 0 <= j < i ==> (#[trigger] f(j)) is None,
    {
        if let Err(m) = service_problem_at(services, i) {
            proof {
                lemma_first_problem_at(0, i as int, n as int, f);
            }
            return Err(m);
        }
    }
    proof {
        lemma_first_problem_none(0, n as int, f);
    }
    Ok(())
}

/// Some service operation stops the service `name`.
pub open spec fn service_stopped(services: Seq<ServiceConfig>, name: Seq<char>) -> bool {
    exists|i: int|
        0 <= i < services.len() && text::eq_ignore_case((#[trigger] services[i]).name@, name)
            && services[i].state == ServiceState::Stopped
}

fn requested_stopped(services: &Vec<ServiceConfig>, name: &str) -> (r: bool)
    ensures
        r == service_stopped(services@, name@),
{
    let n = services.len();
    for i in 0..n
        invariant
            n == services@.len(),
            forall|k: int|
                0 <= k < i ==> !(text::eq_ignore_case((#[trigger] services@[k]).name@, name@)
                    && services@[k].state == ServiceState::Stopped),
    {
        if text::str_eq_ignore_case(services[i].name.as_str(), name) && services[i].state
            == ServiceState::Stopped {
            return true;
        }
    }
    false
}

/// SMB shares need the server service and mappings need the workstation
/// service.
pub open spec fn smb_services_problem(c: NetplanConfig) -> Option<Seq<char>> {
    if c.smb.shares@.len() > 0 && service_stopped(c.services@, "LanmanServer"@) {
        Some("SMB shares cannot be combined with stopping LanmanServer"@)
    } else if c.smb.mappings@.len() > 0 && service_stopped(c.services@, "LanmanWorkstation"@) {
        Some("SMB mappings cannot be combined with stopping LanmanWorkstation"@)
    } else {
        None
    }
}

fn check_smb_services(c: &NetplanConfig) -> (r: Result<(), String>)
    ensures
        agrees(r, smb_services_problem(*c)),
{
    if c.smb.shares.len() > 0 && requested_stopped(&c.services, "LanmanServer") {
        return Err(owned("SMB shares cannot be combined with stopping LanmanServer"));
    }
    if c.smb.mappings.len() > 0 && requested_stopped(&c.services, "LanmanWorkstation") {
        return Err(owned("SMB mappings cannot be combined with stopping LanmanWorkstation"));
    }
    Ok(())
}

// ---------------------------------------------------------------------------
// Drivers and hooks
// ---------------------------------------------------------------------------

/// Problem of the driver operation at index `i`.
pub open spec fn driver_check(protect: Seq<InterfaceSelector>, drivers: Seq<DriverOperation>) -> spec_fn(
    int,
) -> Option<Seq<char>> {
    |i: int|
        match drivers[i] {
            DriverOperation::Install { inf_path, hardware_id, restart, .. } => if text::blank(
                inf_path@,
            ) || text::has_char(inf_path@, '\0') || !text::lower_ends_with(inf_path@, ".inf"@) {
                Some(
                    "driver install path "@ + debug_text(inf_path@) + " must name an .inf file"@,
                )
            } else if hardware_id matches Some(h) && blank_or_nul(h@) {
                Some("driver hardware_id must not be empty or contain NUL"@)
            } else if restart != RestartPolicy::Never && hardware_id is None {
                Some("driver restart policy requires a hardware_id"@)
            } else {
                None
            },
            DriverOperation::RestartAdapter { selector } => protected_problem(protect, selector),
        }
}

fn driver_problem_at(protect: &Vec<InterfaceSelector>, drivers: &Vec<DriverOperation>, i: usize) -> (r:
    Result<(), String>)
    requires
        i < drivers@.len(),
    ensures
        agrees(r, driver_check(protect@, drivers@)(i as int)),
{
    match &drivers[i] {
        DriverOperation::Install { inf_path, hardware_id, restart, .. } => {
            let p = inf_path.as_str();
            if text::str_is_blank(p) || text::str_has_char(p, '\0') || !text::str_lower_ends_with(
                p,
                ".inf",
            ) {
                return Err(quoted_message("driver install path ", p, " must name an .inf file"));
            }
            if let Some(h) = hardware_id {
                if text::str_is_blank(h.as_str()) || text::str_has_char(h.as_str(), '\0') {
                    return Err(owned("driver hardware_id must not be empty or contain NUL"));
                }
            }
            if *restart != RestartPolicy::Never && hardware_id.is_none() {
                return Err(owned("driver restart policy requires a hardware_id"));
            }
            Ok(())
        },
        DriverOperation::RestartAdapter { selector } => check_protected(protect, selector),
    }
}

fn check_drivers(protect: &Vec<InterfaceSelector>, drivers: &Vec<DriverOperation>) -> (r: Result<
    (),
    String,
>)
    ensures
        agrees(r, first_problem(0, drivers@.len() as int, driver_check(protect@, drivers@))),
{
    let ghost f = driver_check(protect@, drivers@);
    let n = drivers.len();
    for i in 0..n
        invariant
            n == drivers@.len(),
            f == driver_check(protect@, drivers@),
            forall|j: int| 0 <= j < i ==> (#[trigger] f(j)) is None,
    {
        if let Err(m) = driver_problem_at(protect, drivers, i) {
            proof {
                lemma_first_problem_at(0, i as int, n as int, f);
            }
            return Err(m);
        }
    }
    proof {
        lemma_first_problem_none(0, n as int, f);
    }
    Ok(())
}

/// Problem of the hook at index `i`.
pub open spec fn hook_check(hooks: Seq<HookConfig>) -> spec_fn(int) -> Option<Seq<char>> {
    |i: int|
        if blank_or_nul(hooks[i].program@) {
            Some("hook executable must not be empty or contain NUL"@)
        } else if exists|k: int|
            0 <= k < hooks[i].args@.len() && text::has_char((#[trigger] hooks[i].args@[k])@, '\0') {
            Some("hook arguments must not contain NUL"@)
        } else {
            None
        }
}

fn hook_problem_at(hooks: &Vec<HookConfig>, i: usize) -> (r: Result<(), String>)
    requires
        i < hooks@.len(),
    ensures
        agrees(r, hook_check(hooks@)(i as int)),
{
    let h = &hooks[i];
    if text::str_is_blank(h.program.as_str()) || text::str_has_char(h.program.as_str(), '\0') {
        return Err(owned("hook executable must not be empty or contain NUL"));
    }
    let n = h.args.len();
    for k in 0..n
        invariant
            n == h.args@.len(),
            i < hooks@.len(),
            *h == hooks@[i as int],
            !blank_or_nul(h.program@),
            forall|j: int| 0 <= j < k ==> !text::has_char((#[trigger] h.args@[j])@, '\0'),
    {
        if text::str_has_char(h.args[k].as_str(), '\0') {
            assert(text::has_char(h.args@[k as int]@, '\0'));
            return Err(owned("hook arguments must not contain NUL"));
        }
    }
    Ok(())
}

fn check_hooks(hooks: &Vec<HookConfig>) -> (r: Result<(), String>)
    ensures
        agrees(r, first_problem(0, hooks@.len() as int, hook_check(hooks@))),
{
    let ghost f = hook_check(hooks@);
    let n = hooks.len();
    for i in 0..n
        invariant
            n == hooks@.len(),
            f == hook_check(hooks@),
            forall|j: int| 0 <= j < i ==> (#[trigger] f(j)) is None,
    {
        if let Err(m) = hook_problem_at(hooks, i) {
            proof {
                lemma_first_problem_at(0, i as int, n as int, f);
            }
            return Err(m);
        }
    }
    proof {
        lemma_first_problem_none(0, n as int, f);
    }
    Ok(())
}

// ---------------------------------------------------------------------------
// The whole document
// ---------------------------------------------------------------------------

/// The first rule that a configuration violates, if any.
pub open spec fn config_problem(c: NetplanConfig) -> Option<Seq<char>> {
    let protect = c.protect.management_interfaces@;
    if c.version != 1 {
        Some("unsupported schema version "@ + text::dec(c.version as nat) + "; expected 1"@)
    } else {
        first_of(
            selectors_problem(c),
            first_of(
                match c.identity {
                    Some(id) => identity_problem(id.computer_name, id.workgroup, id.dns_suffix),
                    None => None,
                },
                first_of(
                    first_problem(0, c.adapters@.len() as int, adapter_check(protect, c.adapters@)),
                    first_of(
                        first_problem(0, c.wifi@.len() as int, wifi_check(protect, c.wifi@)),
                        first_of(
                            first_problem(0, c.wifi@.len() as int, wifi_dup_check(c.wifi@)),
                            first_of(
                                first_problem(
                                    0,
                                    c.wifi_actions@.len() as int,
                                    wifi_action_check(c.wifi@, c.wifi_actions@),
                                ),
                                smb_and_system_problem(c),
                            ),
                        ),
                    ),
                ),
            ),
        )
    }
}

/// The first violated rule about SMB, services, drivers and hooks.
pub open spec fn smb_and_system_problem(c: NetplanConfig) -> Option<Seq<char>> {
    let protect = c.protect.management_interfaces@;
    let accounts = c.smb.accounts@;
    first_of(
        first_problem(0, accounts.len() as int, account_check(accounts)),
        first_of(
            first_problem(0, c.smb.shares@.len() as int, share_check(accounts, c.smb.shares@)),
            first_of(
                first_problem(
                    0,
                    c.smb.mappings@.len() as int,
                    mapping_check(accounts, c.smb.mappings@),
                ),
                first_of(
                    first_problem(0, c.services@.len() as int, service_check(c.services@)),
                    first_of(
                        smb_services_problem(c),
                        first_of(
                            first_problem(
                                0,
                                c.drivers@.len() as int,
                                driver_check(protect, c.drivers@),
                            ),
                            first_problem(0, c.hooks@.len() as int, hook_check(c.hooks@)),
                        ),
                    ),
                ),
            ),
        ),
    )
}

fn check_smb_and_system(c: &NetplanConfig) -> (r: Result<(), String>)
    ensures
        agrees(r, smb_and_system_problem(*c)),
{
    let protect = &c.protect.management_interfaces;
    check_accounts(&c.smb.accounts)?;
    check_shares(&c.smb.accounts, &c.smb.shares)?;
    check_mappings(&c.smb.accounts, &c.smb.mappings)?;
    check_services(&c.services)?;
    check_smb_services(c)?;
    check_drivers(protect, &c.drivers)?;
    check_hooks(&c.hooks)
}

fn check_config(c: &NetplanConfig) -> (r: Result<(), String>)
    ensures
        agrees(r, config_problem(*c)),
{
    if c.version != 1 {
        let mut m = owned("unsupported schema version ");
        let d = text::decimal(c.version as u64);
        append(&mut m, d.as_str());
        append(&mut m, "; expected 1");
        return Err(m);
    }
    let protect = &c.protect.management_interfaces;
    check_selectors(c)?;
    if let Some(id) = &c.identity {
        check_identity(&id.computer_name, &id.workgroup, &id.dns_suffix)?;
    }
    check_adapters(protect, &c.adapters)?;
    check_wifi_profiles(protect, &c.wifi)?;
    check_wifi_duplicates(&c.wifi)?;
    check_wifi_actions(&c.wifi, &c.wifi_actions)?;
    check_smb_and_system(c)
}

/// Semantic validation of a decoded configuration: the first violated rule
/// is reported as a validation error.
pub fn validate(config: &NetplanConfig) -> (r: Result<(), Error>)
    ensures
        match config_problem(*config) {
            None => r is Ok,
            Some(m) => r matches Err(Error::Validation(s)) && s@ == m,
        },
{
    match check_config(config) {
        Ok(()) => Ok(()),
        Err(m) => Err(Error::Validation(m)),
    }
}

// ---------------------------------------------------------------------------
// Document format
// ---------------------------------------------------------------------------

/// The document starts, after leading whitespace, with `{` or `[`.
pub open spec fn looks_like_json(s: Seq<char>) -> bool {
    exists|i: int|
        #![trigger s[i]]
        0 <= i < s.len() && (forall|j: int| 0 <= j < i ==> text::is_whitespace(#[trigger] s[j]))
            && (s[i] == '{' || s[i] == '[')
}

/// The format a document is parsed with: an explicit one, or for `Auto`,
/// JSON when the text starts with `{` or `[` after whitespace, else YAML.
pub open spec fn resolved_format(s: Seq<char>, format: ConfigFormat) -> ConfigFormat {
    match format {
        ConfigFormat::Auto => if looks_like_json(s) {
            ConfigFormat::Json
        } else {
            ConfigFormat::Yaml
        },
        other => other,
    }
}

/// A document parsed with automatic detection is parsed exactly as with the
/// format detected: detection gives JSON or YAML, never `Auto`, and
/// resolving the detected format gives it back, so the same decoder runs on
/// the same text.
pub proof fn lemma_auto_format_is_detected_format(s: Seq<char>)
    ensures
        resolved_format(s, ConfigFormat::Auto) != ConfigFormat::Auto,
        resolved_format(s, resolved_format(s, ConfigFormat::Auto)) == resolved_format(
            s,
            ConfigFormat::Auto,
        ),
{
}

/// Resolves the format of a document.
pub fn resolve_format(text: &str, format: ConfigFormat) -> (r: ConfigFormat)
    ensures
        r == resolved_format(text@, format),
{
    match format {
        ConfigFormat::Auto => {},
        other => return other,
    }
    let chars = text::chars_of(text);
    let n = chars.len();
    for i in 0..n
        invariant
            n == chars@.len(),
            chars@ == text@,
            format == ConfigFormat::Auto,
            forall|j: int| 0 <= j < i ==> text::is_whitespace(#[trigger] text@[j]),
    {
        let c = chars[i];
        if !text::char_is_whitespace(c) {
            if c == '{' || c == '[' {
                assert(looks_like_json(text@)) by {
                    assert(text@[i as int] == c);
                }
                return ConfigFormat::Json;
            }
            proof {
                assert forall|k: int|
                    0 <= k < text@.len() && (forall|j: int|
                        0 <= j < k ==> text::is_whitespace(#[trigger] text@[j])) implies !(text@[k]
                    == '{' || text@[k] == '[') by {
                    if k > i {
                        assert(text::is_whitespace(text@[i as int]));
                    }
                }
            }
            return ConfigFormat::Yaml;
        }
    }
    ConfigFormat::Yaml
}

} // verus!
