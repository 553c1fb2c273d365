//! Semantic validation of a decoded configuration.

use vstd::prelude::*;

use crate::checks::{
    agrees, all_hex, chars_all_hex, first_problem, lemma_first_problem_at,
    lemma_first_problem_none, quote_after, quoted_message,
};
use crate::config::{
    InterfaceSelector, IpAddress, Ipv4Config, Ipv4Network, SecretRef, SmbAccount, SmbAccountKind,
    SmbShare, WifiAction, WifiAuthentication, WifiProfile,
};
use crate::matcher::{check_protected, protected_problem};
use crate::net;
use crate::text;
use crate::text::{append, debug_string, debug_text, owned};

verus! {

// ---------------------------------------------------------------------------
// IPv4
// ---------------------------------------------------------------------------

/// Problem of the static host address at index `i`.
pub open spec fn host_check(addresses: Seq<Ipv4Network>) -> spec_fn(int) -> Option<Seq<char>> {
    |i: int|
        {
            let h = addresses[i].spec_addr();
            if net::v4_unspecified(h) || net::v4_multicast(h) || net::v4_broadcast(h) {
                Some("invalid static IPv4 host address "@ + net::network_text(addresses[i]))
            } else {
                None
            }
        }
}

/// Problem of the gateway at index `i`.
pub open spec fn gateway_check(gateways: Seq<u32>) -> spec_fn(int) -> Option<Seq<char>> {
    |i: int|
        {
            let g = gateways[i];
            if net::v4_unspecified(g) || net::v4_multicast(g) || net::v4_broadcast(g) {
                Some("invalid IPv4 gateway "@ + net::ipv4_text(g))
            } else {
                None
            }
        }
}

/// Problem of the DNS server at index `i`.
pub open spec fn dns_check(dns: Seq<IpAddress>) -> spec_fn(int) -> Option<Seq<char>> {
    |i: int|
        {
            let d = dns[i];
            if net::ip_unspecified(d) || net::ip_multicast(d) {
                Some("invalid DNS server "@ + net::ip_text(d))
            } else {
                None
            }
        }
}

/// Problem of the WINS server at index `i`.
pub open spec fn wins_check(wins: Seq<u32>) -> spec_fn(int) -> Option<Seq<char>> {
    |i: int|
        {
            let w = wins[i];
            if net::v4_unspecified(w) || net::v4_multicast(w) || net::v4_broadcast(w) {
                Some("invalid WINS server "@ + net::ipv4_text(w))
            } else {
                None
            }
        }
}

/// The problem of an IPv4 configuration, if any (`validate_ipv4`).
///
/// Static mode needs an address; no host, gateway or WINS server may be unspecified,
/// multicast or broadcast, and no DNS server may be unspecified or multicast.
pub open spec fn ipv4_problem(cfg: Ipv4Config) -> Option<Seq<char>> {
    match cfg {
        Ipv4Config::Dhcp { .. } => None,
        Ipv4Config::Static { addresses, gateways, dns, wins } => {
            if addresses@.len() == 0 {
                Some("static IPv4 mode requires at least one address"@)
            } else if first_problem(0, addresses@.len() as int, host_check(addresses@)) is Some {
                first_problem(0, addresses@.len() as int, host_check(addresses@))
            } else if first_problem(0, gateways@.len() as int, gateway_check(gateways@)) is Some {
                first_problem(0, gateways@.len() as int, gateway_check(gateways@))
            } else if first_problem(0, dns@.len() as int, dns_check(dns@)) is Some {
                first_problem(0, dns@.len() as int, dns_check(dns@))
            } else {
                first_problem(0, wins@.len() as int, wins_check(wins@))
            }
        },
    }
}

fn check_hosts(addresses: &Vec<Ipv4Network>) -> (r: Result<(), String>)
    ensures
        agrees(r, first_problem(0, addresses@.len() as int, host_check(addresses@))),
{
    let n = addresses.len();
    for i in 0..n
        invariant
            n == addresses@.len(),
            forall|j: int| 0 <= j < i ==> (#[trigger] host_check(addresses@)(j)) is None,
    {
        let h = addresses[i].addr();
        if net::is_v4_unspecified(h) || net::is_v4_multicast(h) || net::is_v4_broadcast(h) {
            let mut m = owned("invalid static IPv4 host address ");
            let t = net::network_string(&addresses[i]);
            append(&mut m, t.as_str());
            proof {
                lemma_first_problem_at(0, i as int, n as int, host_check(addresses@));
            }
            return Err(m);
        }
    }
    proof {
        lemma_first_problem_none(0, n as int, host_check(addresses@));
    }
    Ok(())
}

fn check_gateways(gateways: &Vec<u32>) -> (r: Result<(), String>)
    ensures
        agrees(r, first_problem(0, gateways@.len() as int, gateway_check(gateways@))),
{
    let n = gateways.len();
    for i in 0..n
        invariant
            n == gateways@.len(),
            forall|j: int| 0 <= j < i ==> (#[trigger] gateway_check(gateways@)(j)) is None,
    {
        let g = gateways[i];
        if net::is_v4_unspecified(g) || net::is_v4_multicast(g) || net::is_v4_broadcast(g) {
            let mut m = owned("invalid IPv4 gateway ");
            let t = net::ipv4_string(g);
            append(&mut m, t.as_str());
            proof {
                lemma_first_problem_at(0, i as int, n as int, gateway_check(gateways@));
            }
            return Err(m);
        }
    }
    proof {
        lemma_first_problem_none(0, n as int, gateway_check(gateways@));
    }
    Ok(())
}

fn check_dns(dns: &Vec<IpAddress>) -> (r: Result<(), String>)
    ensures
        agrees(r, first_problem(0, dns@.len() as int, dns_check(dns@))),
{
    let n = dns.len();
    for i in 0..n
        invariant
            n == dns@.len(),
            forall|j: int| 0 <= j < i ==> (#[trigger] dns_check(dns@)(j)) is None,
    {
        let d = dns[i];
        if net::is_ip_unspecified(d) || net::is_ip_multicast(d) {
            let mut m = owned("invalid DNS server ");
            let t = net::ip_string(d);
            append(&mut m, t.as_str());
            proof {
                lemma_first_problem_at(0, i as int, n as int, dns_check(dns@));
            }
            return Err(m);
        }
    }
    proof {
        lemma_first_problem_none(0, n as int, dns_check(dns@));
    }
    Ok(())
}

fn check_wins(wins: &Vec<u32>) -> (r: Result<(), String>)
    ensures
        agrees(r, first_problem(0, wins@.len() as int, wins_check(wins@))),
{
    let n = wins.len();
    for i in 0..n
        invariant
            n == wins@.len(),
            forall|j: int| 0 <= j < i ==> (#[trigger] wins_check(wins@)(j)) is None,
    {
        let w = wins[i];
        if net::is_v4_unspecified(w) || net::is_v4_multicast(w) || net::is_v4_broadcast(w) {
            let mut m = owned("invalid WINS server ");
            let t = net::ipv4_string(w);
            append(&mut m, t.as_str());
            proof {
                lemma_first_problem_at(0, i as int, n as int, wins_check(wins@));
            }
            return Err(m);
        }
    }
    proof {
        lemma_first_problem_none(0, n as int, wins_check(wins@));
    }
    Ok(())
}

/// Checks an IPv4 configuration (`validate_ipv4`).
pub fn check_ipv4(cfg: &Ipv4Config) -> (r: Result<(), String>)
    ensures
        agrees(r, ipv4_problem(*cfg)),
{
    match cfg {
        Ipv4Config::Dhcp { .. } => Ok(()),
        Ipv4Config::Static { addresses, gateways, dns, wins } => {
            if addresses.len() == 0 {
                return Err(owned("static IPv4 mode requires at least one address"));
            }
            check_hosts(addresses)?;
            check_gateways(gateways)?;
            check_dns(dns)?;
            check_wins(wins)
        },
    }
}

} // verus!

verus! {

// ---------------------------------------------------------------------------
// Secrets and Wi-Fi profiles
// ---------------------------------------------------------------------------

/// The problem of a literal pre-shared key for the given authentication, if any.
///
/// A key is 8 to 63 bytes, or exactly 64 hexadecimal digits; WPA3 takes no 64-byte key.
pub open spec fn psk_problem(auth: WifiAuthentication, secret: Seq<char>) -> Option<Seq<char>> {
    let n = text::byte_len(secret);
    if !(8 <= n <= 63) && !(n == 64 && all_hex(secret)) {
        Some("Wi-Fi PSK must be 8 to 63 bytes or 64 hexadecimal digits"@)
    } else if auth == WifiAuthentication::Wpa3Personal && n == 64 {
        Some("WPA3-Personal requires an 8 to 63 byte passphrase, not a 64-digit raw PSK"@)
    } else {
        None
    }
}

/// The name a Wi-Fi profile is known by: its explicit name, else its SSID.
pub open spec fn profile_name(w: WifiProfile) -> Seq<char> {
    match w.name {
        Some(n) => n@,
        None => w.ssid@,
    }
}

/// The text is blank or holds a NUL character.
pub open spec fn blank_or_nul(s: Seq<char>) -> bool {
    text::blank(s) || text::has_char(s, '\0')
}

/// The problem of one Wi-Fi profile, if any.
pub open spec fn wifi_profile_problem(protect: Seq<InterfaceSelector>, w: WifiProfile) -> Option<
    Seq<char>,
> {
    if w.selector matches Some(sel) && protected_problem(protect, sel) is Some {
        protected_problem(protect, w.selector->0)
    } else if text::byte_len(w.ssid@) == 0 || text::byte_len(w.ssid@) > 32 {
        Some("Wi-Fi SSID must contain 1 to 32 bytes"@)
    } else if w.name matches Some(n) && blank_or_nul(n@) {
        Some("Wi-Fi profile name must not be empty or contain NUL"@)
    } else {
        match (w.authentication, w.psk) {
            (WifiAuthentication::Open, Some(_)) => Some(
                "open Wi-Fi profiles must not contain a PSK"@,
            ),
            (WifiAuthentication::Open, None) => None,
            (_, None) => Some("secured Wi-Fi profiles require a PSK reference"@),
            (a, Some(SecretRef::Literal(s))) => psk_problem(a, s@),
            (_, Some(SecretRef::Env(name))) => if name@.len() == 0 {
                Some("secret environment variable name must not be empty"@)
            } else {
                None
            },
        }
    }
}

/// Checks a literal pre-shared key (`validate_psk` and the WPA3 rule).
pub fn check_psk(auth: WifiAuthentication, secret: &str) -> (r: Result<(), String>)
    ensures
        agrees(r, psk_problem(auth, secret@)),
{
    let n = text::str_byte_len(secret);
    let c = text::chars_of(secret);
    let hex64 = n == 64 && chars_all_hex(&c);
    if !(8 <= n && n <= 63) && !hex64 {
        return Err(owned("Wi-Fi PSK must be 8 to 63 bytes or 64 hexadecimal digits"));
    }
    if auth == WifiAuthentication::Wpa3Personal && n == 64 {
        return Err(
            owned("WPA3-Personal requires an 8 to 63 byte passphrase, not a 64-digit raw PSK"),
        );
    }
    Ok(())
}

fn is_blank_or_nul(s: &str) -> (r: bool)
    ensures
        r == blank_or_nul(s@),
{
    text::str_is_blank(s) || text::str_has_char(s, '\0')
}

/// Checks one Wi-Fi profile.
pub fn check_wifi_profile(protect: &Vec<InterfaceSelector>, w: &WifiProfile) -> (r: Result<
    (),
    String,
>)
    ensures
        agrees(r, wifi_profile_problem(protect@, *w)),
{
    if let Some(sel) = &w.selector {
        check_protected(protect, sel)?;
    }
    let n = text::str_byte_len(w.ssid.as_str());
    if n == 0 || n > 32 {
        return Err(owned("Wi-Fi SSID must contain 1 to 32 bytes"));
    }
    if let Some(name) = &w.name {
        if is_blank_or_nul(name.as_str()) {
            return Err(owned("Wi-Fi profile name must not be empty or contain NUL"));
        }
    }
    match (w.authentication, &w.psk) {
        (WifiAuthentication::Open, Some(_)) => Err(
            owned("open Wi-Fi profiles must not contain a PSK"),
        ),
        (WifiAuthentication::Open, None) => Ok(()),
        (_, None) => Err(owned("secured Wi-Fi profiles require a PSK reference")),
        (a, Some(SecretRef::Literal(s))) => check_psk(a, s.as_str()),
        (_, Some(SecretRef::Env(name))) => if name.as_str().is_empty() {
            Err(owned("secret environment variable name must not be empty"))
        } else {
            Ok(())
        },
    }
}

/// The name a Wi-Fi profile is known by.
pub fn wifi_profile_name(w: &WifiProfile) -> (r: &str)
    ensures
        r@ == profile_name(*w),
{
    match &w.name {
        Some(n) => n.as_str(),
        None => w.ssid.as_str(),
    }
}

/// Problem of a profile whose name repeats an earlier one.
pub open spec fn wifi_dup_check(wifi: Seq<WifiProfile>) -> spec_fn(int) -> Option<Seq<char>> {
    |i: int|
        if exists|j: int|
            0 <= j < i && text::eq_ignore_case(profile_name(#[trigger] wifi[j]), profile_name(wifi[i])) {
            Some("duplicate Wi-Fi profile name "@ + debug_text(profile_name(wifi[i])))
        } else {
            None
        }
}

/// Some profile among the first `n` is known by `name`, ignoring ASCII case.
pub open spec fn profile_named(wifi: Seq<WifiProfile>, n: int, name: Seq<char>) -> bool {
    exists|j: int| 0 <= j < n && text::eq_ignore_case(profile_name(#[trigger] wifi[j]), name)
}

fn has_profile_named(wifi: &Vec<WifiProfile>, n: usize, name: &str) -> (r: bool)
    requires
        n <= wifi@.len(),
    ensures
        r == profile_named(wifi@, n as int, name@),
{
    for j in 0..n
        invariant
            n <= wifi@.len(),
            forall|k: int|
                0 <= k < j ==> !text::eq_ignore_case(profile_name(#[trigger] wifi@[k]), name@),
    {
        if text::str_eq_ignore_case(wifi_profile_name(&wifi[j]), name) {
            return true;
        }
    }
    false
}

/// Rejects duplicate profile names.
pub fn check_wifi_duplicates(wifi: &Vec<WifiProfile>) -> (r: Result<(), String>)
    ensures
        agrees(r, first_problem(0, wifi@.len() as int, wifi_dup_check(wifi@))),
{
    let n = wifi.len();
    for i in 0..n
        invariant
            n == wifi@.len(),
            forall|j: int| 0 <= j < i ==> (#[trigger] wifi_dup_check(wifi@)(j)) is None,
    {
        let name = wifi_profile_name(&wifi[i]);
        if has_profile_named(wifi, i, name) {
            proof {
                assert(profile_named(wifi@, i as int, profile_name(wifi@[i as int])));
                assert(wifi_dup_check(wifi@)(i as int) is Some);
                lemma_first_problem_at(0, i as int, n as int, wifi_dup_check(wifi@));
            }
            return Err(quote_after("duplicate Wi-Fi profile name ", name));
        }
        proof {
            assert(!profile_named(wifi@, i as int, profile_name(wifi@[i as int])));
            assert(wifi_dup_check(wifi@)(i as int) is None);
        }
    }
    proof {
        lemma_first_problem_none(0, n as int, wifi_dup_check(wifi@));
    }
    Ok(())
}

/// Problem of a connect action naming no declared profile.
pub open spec fn wifi_action_check(wifi: Seq<WifiProfile>, actions: Seq<WifiAction>) -> spec_fn(
    int,
) -> Option<Seq<char>> {
    |i: int|
        match actions[i] {
            WifiAction::Connect { profile, .. } => if !profile_named(
                wifi,
                wifi.len() as int,
                profile@,
            ) {
                Some("Wi-Fi connect references unknown Wi-Fi profile "@ + debug_text(profile@))
            } else {
                None
            },
            _ => None,
        }
}

/// Rejects connect actions that reference an undeclared profile.
pub fn check_wifi_actions(wifi: &Vec<WifiProfile>, actions: &Vec<WifiAction>) -> (r: Result<
    (),
    String,
>)
    ensures
        agrees(r, first_problem(0, actions@.len() as int, wifi_action_check(wifi@, actions@))),
{
    let n = actions.len();
    for i in 0..n
        invariant
            n == actions@.len(),
            forall|j: int|
                0 <= j < i ==> (#[trigger] wifi_action_check(wifi@, actions@)(j)) is None,
    {
        if let WifiAction::Connect { profile, .. } = &actions[i] {
            if !has_profile_named(wifi, wifi.len(), profile.as_str()) {
                proof {
                    lemma_first_problem_at(0, i as int, n as int, wifi_action_check(wifi@, actions@));
                }
                return Err(
                    quote_after("Wi-Fi connect references unknown Wi-Fi profile ", profile.as_str()),
                );
            }
        }
    }
    proof {
        lemma_first_problem_none(0, n as int, wifi_action_check(wifi@, actions@));
    }
    Ok(())
}

/// The problem of an optional password reference, if any (`validate_optional_secret`).
pub open spec fn secret_problem(s: Option<SecretRef>) -> Option<Seq<char>> {
    match s {
        Some(SecretRef::Env(name)) => if blank_or_nul(name@) {
            Some("secret environment variable name must not be empty or contain NUL"@)
        } else {
            None
        },
        Some(SecretRef::Literal(v)) => if text::has_char(v@, '\0') {
            Some("literal secret must not contain NUL"@)
        } else {
            None
        },
        None => None,
    }
}

pub fn check_secret(s: &Option<SecretRef>) -> (r: Result<(), String>)
    ensures
        agrees(r, secret_problem(*s)),
{
    match s {
        Some(SecretRef::Env(name)) => if is_blank_or_nul(name.as_str()) {
            Err(owned("secret environment variable name must not be empty or contain NUL"))
        } else {
            Ok(())
        },
        Some(SecretRef::Literal(v)) => if text::str_has_char(v.as_str(), '\0') {
            Err(owned("literal secret must not contain NUL"))
        } else {
            Ok(())
        },
        None => Ok(()),
    }
}

} // verus!

verus! {

// ---------------------------------------------------------------------------
// Paths
// ---------------------------------------------------------------------------

/// The text with leading backslashes removed.
pub open spec fn strip_backslashes(s: Seq<char>) -> Seq<char>
    decreases s.len(),
{
    if s.len() > 0 && s[0] == '\\' {
        strip_backslashes(s.drop_first())
    } else {
        s
    }
}

/// `\\server\share`: two leading backslashes, then a nonempty server part and a nonempty
/// share part separated by the first backslash (`is_unc_share`).
pub open spec fn unc_share(s: Seq<char>) -> bool {
    let t = strip_backslashes(s);
    &&& text::starts_with(s, seq!['\\', '\\'])
    &&& exists|k: int|
        0 < k && k + 1 < t.len() && #[trigger] t[k] == '\\' && t[k + 1] != '\\' && (forall|j: int|
            0 <= j < k ==> t[j] != '\\')
}

/// A drive letter such as `Z:` (`is_drive_letter`).
pub open spec fn drive_letter(s: Seq<char>) -> bool {
    s.len() == 2 && text::is_ascii_alpha(s[0]) && s[1] == ':'
}

/// `X:\...`, `X:/...`, `\\?\...` or `\\.\...` (`is_absolute_windows_path`).
pub open spec fn absolute_windows_path(s: Seq<char>) -> bool {
    ||| (s.len() >= 3 && text::is_ascii_alpha(s[0]) && s[1] == ':' && (s[2] == '\\' || s[2]
        == '/'))
    ||| text::starts_with(s, seq!['\\', '\\', '?', '\\'])
    ||| text::starts_with(s, seq!['\\', '\\', '.', '\\'])
}

fn starts_with_chars(x: &Vec<char>, p: &[char]) -> (r: bool)
    ensures
        r == text::starts_with(x@, p@),
{
    if p.len() > x.len() {
        return false;
    }
    let m = p.len();
    for k in 0..m
        invariant
            m == p@.len(),
            m <= x@.len(),
            forall|l: int| 0 <= l < k ==> x@[l] == #[trigger] p@[l],
    {
        if x[k] != p[k] {
            proof {
                assert(x@.subrange(0, m as int)[k as int] != p@[k as int]);
            }
            return false;
        }
    }
    proof {
        assert(x@.subrange(0, m as int) =~= p@);
    }
    true
}

pub fn is_unc_share(path: &str) -> (r: bool)
    ensures
        r == unc_share(path@),
{
    let x = text::chars_of(path);
    let prefix = ['\\', '\\'];
    proof {
        assert(prefix@ =~= seq!['\\', '\\']);
    }
    if !starts_with_chars(&x, &prefix) {
        return false;
    }
    let n = x.len();
    let mut a: usize = 0;
    proof {
        assert(path@.subrange(0, n as int) =~= path@);
    }
    while a < n && x[a] == '\\'
        invariant
            n == x@.len(),
            x@ == path@,
            a <= n,
            strip_backslashes(path@) == strip_backslashes(path@.subrange(a as int, n as int)),
        decreases n - a,
    {
        proof {
            assert(path@.subrange(a as int, n as int).drop_first() =~= path@.subrange(
                a + 1,
                n as int,
            ));
        }
        a = a + 1;
    }
    let ghost t = path@.subrange(a as int, n as int);
    proof {
        assert(strip_backslashes(path@) == t);
    }
    let mut k = a;
    while k < n && x[k] != '\\'
        invariant
            n == x@.len(),
            x@ == path@,
            a <= k <= n,
            t == path@.subrange(a as int, n as int),
            forall|j: int| a <= j < k ==> path@[j] != '\\',
        decreases n - k,
    {
        k = k + 1;
    }
    let ok = k > a && k < n - 1 && x[k + 1] != '\\';
    proof {
        if ok {
            let kk = k - a;
            assert(t[kk] == '\\');
            assert(t[kk + 1] != '\\');
            assert(forall|j: int| 0 <= j < kk ==> t[j] != '\\');
        } else {
            assert forall|kk: int|
                0 < kk && kk + 1 < t.len() && #[trigger] t[kk] == '\\' && t[kk + 1] != '\\'
                    implies !(forall|j: int| 0 <= j < kk ==> t[j] != '\\') by {
                if kk < k - a {
                    assert(t[kk] == path@[a + kk]);
                } else if kk > k - a {
                    assert(t[k - a] == '\\');
                } else {
                    if k == a {
                        assert(t.len() > 0);
                        if a > 0 {
                            assert(t[0] == path@[a as int]);
                        }
                    }
                }
            }
        }
    }
    ok
}

pub fn is_drive_letter(value: &str) -> (r: bool)
    ensures
        r == drive_letter(value@),
{
    let x = text::chars_of(value);
    x.len() == 2 && text::char_is_ascii_alpha(x[0]) && x[1] == ':'
}

pub fn is_absolute_windows_path(value: &str) -> (r: bool)
    ensures
        r == absolute_windows_path(value@),
{
    let x = text::chars_of(value);
    let verbatim = ['\\', '\\', '?', '\\'];
    let device = ['\\', '\\', '.', '\\'];
    proof {
        assert(verbatim@ =~= seq!['\\', '\\', '?', '\\']);
        assert(device@ =~= seq!['\\', '\\', '.', '\\']);
    }
    (x.len() >= 3 && text::char_is_ascii_alpha(x[0]) && x[1] == ':' && (x[2] == '\\' || x[2]
        == '/')) || starts_with_chars(&x, &verbatim) || starts_with_chars(&x, &device)
}

} // verus!

verus! {

// ---------------------------------------------------------------------------
// SMB
// ---------------------------------------------------------------------------

/// Characters a local Windows user name may not contain.
pub open spec fn user_forbidden() -> Seq<char> {
    seq!['\\', '/', '@', '[', ']', ':', ';', '|', '=', '+', '*', '?', '<', '>', '"', ',']
}

/// Problem of the SMB account at index `i`.
pub open spec fn account_check(accounts: Seq<SmbAccount>) -> spec_fn(int) -> Option<Seq<char>> {
    |i: int|
        {
            let a = accounts[i];
            if blank_or_nul(a.id@) {
                Some("SMB account id must not be empty or contain NUL"@)
            } else if blank_or_nul(a.username@) {
                Some("SMB account "@ + debug_text(a.id@) + " has an invalid username"@)
            } else if a.kind == SmbAccountKind::Local && (text::byte_len(a.username@) > 20
                || text::has_any(a.username@, user_forbidden())) {
                Some("SMB local account "@ + debug_text(a.id@) + " has an invalid Windows user name"@)
            } else if exists|j: int|
                0 <= j < i && text::eq_ignore_case((#[trigger] accounts[j]).id@, a.id@) {
                Some("duplicate SMB account id "@ + debug_text(a.id@))
            } else {
                secret_problem(a.password)
            }
        }
}

/// Index of the first account whose id equals `r` ignoring ASCII case, from `lo` on.
pub open spec fn find_account_from(accounts: Seq<SmbAccount>, r: Seq<char>, lo: int) -> Option<
    int,
>
    decreases accounts.len() - lo,
{
    if lo < 0 || lo >= accounts.len() {
        None
    } else if text::eq_ignore_case(accounts[lo].id@, r) {
        Some(lo)
    } else {
        find_account_from(accounts, r, lo + 1)
    }
}

/// Index of the first account whose id equals `r` ignoring ASCII case (`find_smb_account`).
pub open spec fn find_account(accounts: Seq<SmbAccount>, r: Seq<char>) -> Option<int> {
    find_account_from(accounts, r, 0)
}

/// Finds an account by id, ignoring ASCII case.
pub fn find_smb_account(accounts: &Vec<SmbAccount>, r: &str) -> (found: Option<usize>)
    ensures
        found matches Some(i) ==> find_account(accounts@, r@) == Some(i as int) && i < accounts@.len(),
        found is None ==> find_account(accounts@, r@) is None,
{
    let n = accounts.len();
    for i in 0..n
        invariant
            n == accounts@.len(),
            find_account(accounts@, r@) == find_account_from(accounts@, r@, i as int),
    {
        if text::str_eq_ignore_case(accounts[i].id.as_str(), r) {
            return Some(i);
        }
    }
    None
}

fn id_seen(accounts: &Vec<SmbAccount>, n: usize, id: &str) -> (r: bool)
    requires
        n <= accounts@.len(),
    ensures
        r == exists|j: int| 0 <= j < n && text::eq_ignore_case((#[trigger] accounts@[j]).id@, id@),
{
    for j in 0..n
        invariant
            n <= accounts@.len(),
            forall|k: int| 0 <= k < j ==> !text::eq_ignore_case((#[trigger] accounts@[k]).id@, id@),
    {
        if text::str_eq_ignore_case(accounts[j].id.as_str(), id) {
            return true;
        }
    }
    false
}

fn account_problem_at(accounts: &Vec<SmbAccount>, i: usize) -> (r: Result<(), String>)
    requires
        i < accounts@.len(),
    ensures
        agrees(r, account_check(accounts@)(i as int)),
{
    let a = &accounts[i];
    if is_blank_or_nul(a.id.as_str()) {
        return Err(owned("SMB account id must not be empty or contain NUL"));
    }
    if is_blank_or_nul(a.username.as_str()) {
        return Err(quoted_message("SMB account ", a.id.as_str(), " has an invalid username"));
    }
    let forbidden = ['\\', '/', '@', '[', ']', ':', ';', '|', '=', '+', '*', '?', '<', '>', '"', ','];
    proof {
        assert(forbidden@ =~= user_forbidden());
    }
    if a.kind == SmbAccountKind::Local && (text::str_byte_len(a.username.as_str()) > 20
        || text::str_has_any(a.username.as_str(), &forbidden)) {
        return Err(
            quoted_message("SMB local account ", a.id.as_str(), " has an invalid Windows user name"),
        );
    }
    if id_seen(accounts, i, a.id.as_str()) {
        return Err(quote_after("duplicate SMB account id ", a.id.as_str()));
    }
    check_secret(&a.password)
}

/// Checks every SMB account.
pub fn check_accounts(accounts: &Vec<SmbAccount>) -> (r: Result<(), String>)
    ensures
        agrees(r, first_problem(0, accounts@.len() as int, account_check(accounts@))),
{
    let n = accounts.len();
    for i in 0..n
        invariant
            n == accounts@.len(),
            forall|j: int| 0 <= j < i ==> (#[trigger] account_check(accounts@)(j)) is None,
    {
        let r = account_problem_at(accounts, i);
        if r.is_err() {
            proof {
                lemma_first_problem_at(0, i as int, n as int, account_check(accounts@));
            }
            return r;
        }
    }
    proof {
        lemma_first_problem_none(0, n as int, account_check(accounts@));
    }
    Ok(())
}

/// Problem of the account reference at index `k` of a share.
pub open spec fn share_account_check(accounts: Seq<SmbAccount>, s: SmbShare) -> spec_fn(int) -> Option<
    Seq<char>,
> {
    |k: int|
        {
            let r = s.accounts@[k]@;
            match find_account(accounts, r) {
                None => Some("unknown SMB account reference "@ + debug_text(r)),
                Some(j) => if accounts[j].kind != SmbAccountKind::Local {
                    Some(
                        "SMB share "@ + debug_text(s.name@) + " requires account "@ + debug_text(r)
                            + " to have kind local"@,
                    )
                } else if exists|l: int|
                    0 <= l < k && text::eq_ignore_case((#[trigger] s.accounts@[l])@, r) {
                    Some(
                        "SMB share "@ + debug_text(s.name@) + " contains duplicate account reference "@
                            + debug_text(r),
                    )
                } else {
                    None
                },
            }
        }
}

/// Problem of the SMB share at index `i`.
pub open spec fn share_check(accounts: Seq<SmbAccount>, shares: Seq<SmbShare>) -> spec_fn(int) -> Option<
    Seq<char>,
> {
    |i: int|
        {
            let s = shares[i];
            let name = s.name@;
            if text::blank(name) || text::byte_len(name) > 80 || text::has_any(
                name,
                seq!['\\', '/', '\0'],
            ) || text::lower(name) == "pipe"@ || text::lower(name) == "mailslot"@ {
                Some("invalid SMB share name "@ + debug_text(name))
            } else if exists|j: int|
                0 <= j < i && text::eq_ignore_case((#[trigger] shares[j]).name@, name) {
                Some("duplicate SMB share name "@ + debug_text(name))
            } else if !absolute_windows_path(s.path@) || text::has_char(s.path@, '\0') {
                Some("SMB share "@ + debug_text(name) + " requires an absolute local Windows path"@)
            } else if s.description matches Some(d) && (text::byte_len(d@) > 48 || text::has_char(
                d@,
                '\0',
            )) {
                Some(
                    "SMB share "@ + debug_text(name)
                        + " description exceeds 48 bytes or contains NUL"@,
                )
            } else {
                first_problem(0, s.accounts@.len() as int, share_account_check(accounts, s))
            }
        }
}

fn chars_equal_literal(x: &Vec<char>, lit: &str) -> (r: bool)
    ensures
        r == (x@ == lit@),
{
    let y = text::chars_of(lit);
    if x.len() != y.len() {
        return false;
    }
    let n = x.len();
    for i in 0..n
        invariant
            n == x@.len(),
            n == y@.len(),
            y@ == lit@,
            forall|j: int| 0 <= j < i ==> x@[j] == y@[j],
    {
        if x[i] != y[i] {
            return false;
        }
    }
    proof {
        assert(x@ =~= y@);
    }
    true
}

fn share_accounts_seen(s: &SmbShare, k: usize, r: &str) -> (found: bool)
    requires
        k <= s.accounts@.len(),
    ensures
        found == exists|l: int| 0 <= l < k && text::eq_ignore_case((#[trigger] s.accounts@[l])@, r@),
{
    for l in 0..k
        invariant
            k <= s.accounts@.len(),
            forall|m: int| 0 <= m < l ==> !text::eq_ignore_case((#[trigger] s.accounts@[m])@, r@),
    {
        if text::str_eq_ignore_case(s.accounts[l].as_str(), r) {
            return true;
        }
    }
    false
}

fn check_share_accounts(accounts: &Vec<SmbAccount>, s: &SmbShare) -> (r: Result<(), String>)
    ensures
        agrees(r, first_problem(0, s.accounts@.len() as int, share_account_check(accounts@, *s))),
{
    let n = s.accounts.len();
    for k in 0..n
        invariant
            n == s.accounts@.len(),
            forall|j: int| 0 <= j < k ==> (#[trigger] share_account_check(accounts@, *s)(j)) is None,
    {
        let reference = s.accounts[k].as_str();
        match find_smb_account(accounts, reference) {
            None => {
                proof {
                    lemma_first_problem_at(0, k as int, n as int, share_account_check(accounts@, *s));
                }
                return Err(quote_after("unknown SMB account reference ", reference));
            },
            Some(j) => {
                if accounts[j].kind != SmbAccountKind::Local {
                    let mut m = quoted_message("SMB share ", s.name.as_str(), " requires account ");
                    let q = debug_string(reference);
                    append(&mut m, q.as_str());
                    append(&mut m, " to have kind local");
                    proof {
                        lemma_first_problem_at(0, k as int, n as int, share_account_check(accounts@, *s));
                    }
                    return Err(m);
                }
                if share_accounts_seen(s, k, reference) {
                    let mut m = quoted_message(
                        "SMB share ",
                        s.name.as_str(),
                        " contains duplicate account reference ",
                    );
                    let q = debug_string(reference);
                    append(&mut m, q.as_str());
                    proof {
                        lemma_first_problem_at(0, k as int, n as int, share_account_check(accounts@, *s));
                    }
                    return Err(m);
                }
            },
        }
    }
    proof {
        lemma_first_problem_none(0, n as int, share_account_check(accounts@, *s));
    }
    Ok(())
}

fn share_name_seen(shares: &Vec<SmbShare>, n: usize, name: &str) -> (r: bool)
    requires
        n <= shares@.len(),
    ensures
        r == exists|j: int| 0 <= j < n && text::eq_ignore_case((#[trigger] shares@[j]).name@, name@),
{
    for j in 0..n
        invariant
            n <= shares@.len(),
            forall|k: int| 0 <= k < j ==> !text::eq_ignore_case((#[trigger] shares@[k]).name@, name@),
    {
        if text::str_eq_ignore_case(shares[j].name.as_str(), name) {
            return true;
        }
    }
    false
}

fn share_problem_at(accounts: &Vec<SmbAccount>, shares: &Vec<SmbShare>, i: usize) -> (r: Result<
    (),
    String,
>)
    requires
        i < shares@.len(),
    ensures
        agrees(r, share_check(accounts@, shares@)(i as int)),
{
    let s = &shares[i];
    let name = s.name.as_str();
    let bad = ['\\', '/', '\0'];
    proof {
        assert(bad@ =~= seq!['\\', '/', '\0']);
    }
    let lowered = text::ascii_lowercase(name);
    if text::str_is_blank(name) || text::str_byte_len(name) > 80 || text::str_has_any(name, &bad)
        || chars_equal_literal(&lowered, "pipe") || chars_equal_literal(&lowered, "mailslot") {
        return Err(quote_after("invalid SMB share name ", name));
    }
    if share_name_seen(shares, i, name) {
        return Err(quote_after("duplicate SMB share name ", name));
    }
    if !is_absolute_windows_path(s.path.as_str()) || text::str_has_char(s.path.as_str(), '\0') {
        return Err(quoted_message("SMB share ", name, " requires an absolute local Windows path"));
    }
    if let Some(d) = &s.description {
        if text::str_byte_len(d.as_str()) > 48 || text::str_has_char(d.as_str(), '\0') {
            return Err(
                quoted_message("SMB share ", name, " description exceeds 48 bytes or contains NUL"),
            );
        }
    }
    check_share_accounts(accounts, s)
}

/// Checks every SMB share.
pub fn check_shares(accounts: &Vec<SmbAccount>, shares: &Vec<SmbShare>) -> (r: Result<(), String>)
    ensures
        agrees(r, first_problem(0, shares@.len() as int, share_check(accounts@, shares@))),
{
    let n = shares.len();
    for i in 0..n
        invariant
            n == shares@.len(),
            forall|j: int| 0 <= j < i ==> (#[trigger] share_check(accounts@, shares@)(j)) is None,
    {
        let r = share_problem_at(accounts, shares, i);
        if r.is_err() {
            proof {
                lemma_first_problem_at(0, i as int, n as int, share_check(accounts@, shares@));
            }
            return r;
        }
    }
    proof {
        lemma_first_problem_none(0, n as int, share_check(accounts@, shares@));
    }
    Ok(())
}

} // verus!
