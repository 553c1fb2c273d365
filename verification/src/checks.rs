//! Field-level checks used by configuration validation: selectors, MAC addresses,
//! machine identity names, DNS names, and path shapes.

use vstd::prelude::*;

use crate::config::InterfaceSelector;
use crate::text;
use crate::text::{append, debug_string, debug_text, owned};

verus! {

// ---------------------------------------------------------------------------
// Generic scanning
// ---------------------------------------------------------------------------

/// The first problem reported by `f` over the indexes `lo..hi`, in order.
pub open spec fn first_problem(lo: int, hi: int, f: spec_fn(int) -> Option<Seq<char>>) -> Option<
    Seq<char>,
>
    decreases hi - lo,
{
    if lo >= hi {
        None
    } else if f(lo) is Some {
        f(lo)
    } else {
        first_problem(lo + 1, hi, f)
    }
}

/// When no index in `lo..i` has a problem, scanning from `lo` is scanning from `i`.
pub proof fn lemma_first_problem_skip(
    lo: int,
    i: int,
    hi: int,
    f: spec_fn(int) -> Option<Seq<char>>,
)
    requires
        lo <= i <= hi,
        forall|j: int| lo <= j < i ==> (#[trigger] f(j)) is None,
    ensures
        first_problem(lo, hi, f) == first_problem(i, hi, f),
    decreases i - lo,
{
    if lo < i {
        lemma_first_problem_skip(lo + 1, i, hi, f);
    }
}

/// The first problem is the one at `i` when no earlier index has one.
pub proof fn lemma_first_problem_at(lo: int, i: int, hi: int, f: spec_fn(int) -> Option<Seq<char>>)
    requires
        lo <= i < hi,
        forall|j: int| lo <= j < i ==> (#[trigger] f(j)) is None,
        f(i) is Some,
    ensures
        first_problem(lo, hi, f) == f(i),
{
    lemma_first_problem_skip(lo, i, hi, f);
}

/// There is no problem when no index has one.
pub proof fn lemma_first_problem_none(lo: int, hi: int, f: spec_fn(int) -> Option<Seq<char>>)
    requires
        lo <= hi,
        forall|j: int| lo <= j < hi ==> (#[trigger] f(j)) is None,
    ensures
        first_problem(lo, hi, f) is None,
{
    lemma_first_problem_skip(lo, hi, hi, f);
}

/// There is a problem when some index has one.
pub proof fn lemma_first_problem_some(lo: int, i: int, hi: int, f: spec_fn(int) -> Option<Seq<char>>)
    requires
        lo <= i < hi,
        f(i) is Some,
    ensures
        first_problem(lo, hi, f) is Some,
    decreases i - lo,
{
    if f(lo) is None {
        lemma_first_problem_some(lo + 1, i, hi, f);
    }
}

/// A check result agrees with the problem a specification reports.
pub open spec fn agrees(r: Result<(), String>, p: Option<Seq<char>>) -> bool {
    match p {
        None => r is Ok,
        Some(m) => r matches Err(s) && s@ == m,
    }
}

/// Builds `prefix + debug(value) + suffix`.
pub fn quoted_message(prefix: &str, value: &str, suffix: &str) -> (r: String)
    ensures
        r@ == prefix@ + debug_text(value@) + suffix@,
{
    let mut r = owned(prefix);
    let q = debug_string(value);
    append(&mut r, q.as_str());
    append(&mut r, suffix);
    r
}

/// Builds `prefix + debug(value)`.
pub fn quote_after(prefix: &str, value: &str) -> (r: String)
    ensures
        r@ == prefix@ + debug_text(value@),
{
    let mut r = owned(prefix);
    let q = debug_string(value);
    append(&mut r, q.as_str());
    r
}

// ---------------------------------------------------------------------------
// MAC addresses
// ---------------------------------------------------------------------------

/// A separator allowed inside a MAC address.
pub open spec fn is_mac_separator(c: char) -> bool {
    c == ':' || c == '-'
}

/// The MAC text with every `:` and `-` removed.
pub open spec fn mac_compact(s: Seq<char>) -> Seq<char>
    decreases s.len(),
{
    if s.len() == 0 {
        s
    } else if is_mac_separator(s.last()) {
        mac_compact(s.drop_last())
    } else {
        mac_compact(s.drop_last()).push(s.last())
    }
}

/// Every character is an ASCII hexadecimal digit.
pub open spec fn all_hex(s: Seq<char>) -> bool {
    forall|i: int| 0 <= i < s.len() ==> text::is_ascii_hex(#[trigger] s[i])
}

/// The problem with a MAC address used as a selector or an override, if any.
///
/// The compact form must be 12 hexadecimal digits, and the first octet must have its two
/// low bits equal to `10`: locally administered and unicast.
pub open spec fn mac_problem(mac: Seq<char>) -> Option<Seq<char>> {
    let c = mac_compact(mac);
    if !(c.len() == 12 && all_hex(c)) {
        Some("invalid MAC address "@ + debug_text(mac) + "; expected 12 hexadecimal digits"@)
    } else if (16 * text::hex_value(c[0]) + text::hex_value(c[1])) % 4 != 2 {
        Some(
            "MAC override "@ + debug_text(mac)
                + " must be a locally administered unicast address"@,
        )
    } else {
        None
    }
}

/// The characters of the MAC text other than separators.
pub fn compact_mac(mac: &str) -> (r: Vec<char>)
    ensures
        r@ == mac_compact(mac@),
{
    let cs = text::chars_of(mac);
    let mut out: Vec<char> = Vec::new();
    let n = cs.len();
    for i in 0..n
        invariant
            n == cs@.len(),
            cs@ == mac@,
            out@ == mac_compact(cs@.take(i as int)),
    {
        proof {
            assert(cs@.take(i + 1).drop_last() =~= cs@.take(i as int));
        }
        let c = cs[i];
        if c != ':' && c != '-' {
            out.push(c);
        }
    }
    proof {
        assert(cs@.take(n as int) =~= cs@);
    }
    out
}

/// Whether every character is an ASCII hexadecimal digit.
pub fn chars_all_hex(c: &Vec<char>) -> (r: bool)
    ensures
        r == all_hex(c@),
{
    let n = c.len();
    for i in 0..n
        invariant
            n == c@.len(),
            forall|j: int| 0 <= j < i ==> text::is_ascii_hex(#[trigger] c@[j]),
    {
        if !text::char_is_ascii_hex(c[i]) {
            return false;
        }
    }
    true
}

/// Checks a MAC address (`validate_mac`).
pub fn check_mac(mac: &str) -> (r: Result<(), String>)
    ensures
        agrees(r, mac_problem(mac@)),
{
    let c = compact_mac(mac);
    if !(c.len() == 12 && chars_all_hex(&c)) {
        return Err(
            quoted_message("invalid MAC address ", mac, "; expected 12 hexadecimal digits"),
        );
    }
    let low = text::char_hex_value(c[1]);
    let high = text::char_hex_value(c[0]);
    let octet: u32 = 16 * (high as u32) + (low as u32);
    if octet % 4 != 2 {
        return Err(
            quoted_message(
                "MAC override ",
                mac,
                " must be a locally administered unicast address",
            ),
        );
    }
    Ok(())
}

// ---------------------------------------------------------------------------
// Selectors
// ---------------------------------------------------------------------------

/// The optional text is absent or empty.
pub open spec fn none_or_empty(o: Option<String>) -> bool {
    match o {
        None => true,
        Some(s) => s@.len() == 0,
    }
}

/// The problem with an interface selector, if any (`validate_selector`).
pub open spec fn selector_problem(sel: InterfaceSelector) -> Option<Seq<char>> {
    if sel.if_index is None && none_or_empty(sel.name) && none_or_empty(sel.guid)
        && none_or_empty(sel.mac_address) && none_or_empty(sel.description_contains) {
        Some("each interface selector must contain at least one matcher"@)
    } else {
        match sel.mac_address {
            Some(mac) => mac_problem(mac@),
            None => None,
        }
    }
}

fn opt_none_or_empty(o: &Option<String>) -> (r: bool)
    ensures
        r == none_or_empty(*o),
{
    match o {
        None => true,
        Some(s) => s.as_str().is_empty(),
    }
}

/// Checks an interface selector.
pub fn check_selector(sel: &InterfaceSelector) -> (r: Result<(), String>)
    ensures
        agrees(r, selector_problem(*sel)),
{
    if sel.if_index.is_none() && opt_none_or_empty(&sel.name) && opt_none_or_empty(&sel.guid)
        && opt_none_or_empty(&sel.mac_address) && opt_none_or_empty(
        &sel.description_contains,
    ) {
        return Err(owned("each interface selector must contain at least one matcher"));
    }
    match &sel.mac_address {
        Some(mac) => check_mac(mac.as_str()),
        None => Ok(()),
    }
}

// ---------------------------------------------------------------------------
// Machine identity
// ---------------------------------------------------------------------------

/// A NetBIOS computer name: 1 to 15 ASCII letters, digits or hyphens, not all digits,
/// neither starting nor ending with a hyphen.
pub open spec fn computer_name_ok(n: Seq<char>) -> bool {
    &&& 0 < n.len() <= 15
    &&& forall|i: int| 0 <= i < n.len() ==> text::is_ascii_alnum(#[trigger] n[i]) || n[i] == '-'
    &&& exists|i: int| 0 <= i < n.len() && !text::is_ascii_digit(#[trigger] n[i])
    &&& n[0] != '-'
    &&& n.last() != '-'
}

/// Characters a workgroup name may not contain.
pub open spec fn workgroup_forbidden() -> Seq<char> {
    seq!['\\', '/', ':', '*', '?', '"', '<', '>', '|', '\0']
}

/// A workgroup name: nonempty, at most 15 bytes, no reserved punctuation or NUL.
pub open spec fn workgroup_ok(w: Seq<char>) -> bool {
    w.len() > 0 && text::byte_len(w) <= 15 && !text::has_any(w, workgroup_forbidden())
}

/// A DNS name: nonempty, at most 255 characters, dot-separated labels of 1 to 63 ASCII
/// letters, digits and hyphens, no label starting or ending with a hyphen.
pub open spec fn dns_name_ok(s: Seq<char>) -> bool {
    &&& 0 < s.len() <= 255
    &&& forall|i: int|
        0 <= i < s.len() ==> text::is_ascii_alnum(#[trigger] s[i]) || s[i] == '-' || s[i] == '.'
    &&& s[0] != '.' && s[0] != '-'
    &&& s.last() != '.' && s.last() != '-'
    &&& forall|i: int|
        0 <= i < s.len() - 1 && #[trigger] s[i] == '.' ==> s[i + 1] != '.' && s[i + 1] != '-'
    &&& forall|i: int| 0 <= i < s.len() - 1 && #[trigger] s[i] == '-' ==> s[i + 1] != '.'
    &&& forall|i: int| 0 <= i && i + 64 <= s.len() ==> #[trigger] window_has_dot(s, i)
}

/// Some dot occurs among the 64 characters starting at `i`.
pub open spec fn window_has_dot(s: Seq<char>, i: int) -> bool {
    exists|k: int| i <= k < i + 64 && s[k] == '.'
}

pub fn is_computer_name(name: &str) -> (r: bool)
    ensures
        r == computer_name_ok(name@),
{
    let n = text::chars_of(name);
    let len = n.len();
    if len == 0 || len > 15 {
        return false;
    }
    let mut non_digit = false;
    for i in 0..len
        invariant
            len == n@.len(),
            n@ == name@,
            forall|j: int| 0 <= j < i ==> text::is_ascii_alnum(#[trigger] n@[j]) || n@[j] == '-',
            non_digit <==> exists|j: int| 0 <= j < i && !text::is_ascii_digit(#[trigger] n@[j]),
    {
        let c = n[i];
        if !(text::char_is_ascii_alnum(c) || c == '-') {
            return false;
        }
        if !text::char_is_ascii_digit(c) {
            non_digit = true;
        }
    }
    non_digit && n[0] != '-' && n[len - 1] != '-'
}

pub fn is_workgroup(w: &str) -> (r: bool)
    ensures
        r == workgroup_ok(w@),
{
    let forbidden = ['\\', '/', ':', '*', '?', '"', '<', '>', '|', '\0'];
    proof {
        assert(forbidden@ =~= workgroup_forbidden());
    }
    !w.is_empty() && text::str_byte_len(w) <= 15 && !text::str_has_any(w, &forbidden)
}

pub fn is_dns_name(value: &str) -> (r: bool)
    ensures
        r == dns_name_ok(value@),
{
    let s = text::chars_of(value);
    let len = s.len();
    if len == 0 || len > 255 {
        return false;
    }
    if s[0] == '.' || s[0] == '-' || s[len - 1] == '.' || s[len - 1] == '-' {
        return false;
    }
    let mut run: usize = 0;
    for i in 0..len
        invariant
            len == s@.len(),
            s@ == value@,
            0 < len <= 255,
            run <= i,
            run < 64,
            forall|j: int|
                0 <= j < i ==> text::is_ascii_alnum(#[trigger] s@[j]) || s@[j] == '-' || s@[j]
                    == '.',
            forall|j: int|
                0 <= j < i - 1 && #[trigger] s@[j] == '.' ==> s@[j + 1] != '.' && s@[j + 1]
                    != '-',
            forall|j: int| 0 <= j < i - 1 && #[trigger] s@[j] == '-' ==> s@[j + 1] != '.',
            forall|j: int| i - run <= j < i ==> #[trigger] s@[j] != '.',
            run < i ==> s@[i - run - 1] == '.',
            forall|j: int| 0 <= j && j + 64 <= i ==> #[trigger] window_has_dot(s@, j),
    {
        let c = s[i];
        if !(text::char_is_ascii_alnum(c) || c == '-' || c == '.') {
            return false;
        }
        if i > 0 {
            let p = s[i - 1];
            if p == '.' && (c == '.' || c == '-') {
                return false;
            }
            if p == '-' && c == '.' {
                return false;
            }
        }
        if c == '.' {
            run = 0;
            proof {
                assert forall|j: int| 0 <= j && j + 64 <= i + 1 implies #[trigger] window_has_dot(
                    s@,
                    j,
                ) by {
                    if j + 64 == i + 1 {
                        assert(s@[i as int] == '.');
                    }
                }
            }
        } else {
            if run == 63 {
                proof {
                    let j = i - 63;
                    assert(forall|k: int| j <= k < j + 64 ==> #[trigger] s@[k] != '.');
                    assert(!window_has_dot(s@, j));
                    assert(!dns_name_ok(value@));
                }
                return false;
            }
            proof {
                assert forall|j: int| 0 <= j && j + 64 <= i + 1 implies #[trigger] window_has_dot(
                    s@,
                    j,
                ) by {
                    if j + 64 == i + 1 {
                        let k = i - run - 1;
                        assert(s@[k] == '.');
                    }
                }
            }
            run = run + 1;
        }
    }
    true
}

/// A problem with the identity settings, if any (`validate_identity`).
pub open spec fn identity_problem(
    computer_name: Option<String>,
    workgroup: Option<String>,
    dns_suffix: Option<String>,
) -> Option<Seq<char>> {
    if computer_name matches Some(n) && !computer_name_ok(n@) {
        Some("invalid NetBIOS computer name "@ + debug_text(computer_name->0@))
    } else if workgroup matches Some(w) && !workgroup_ok(w@) {
        Some("invalid workgroup name "@ + debug_text(workgroup->0@))
    } else if dns_suffix matches Some(d) && !dns_name_ok(d@) {
        Some("invalid primary DNS suffix "@ + debug_text(dns_suffix->0@))
    } else {
        None
    }
}

pub fn check_identity(
    computer_name: &Option<String>,
    workgroup: &Option<String>,
    dns_suffix: &Option<String>,
) -> (r: Result<(), String>)
    ensures
        agrees(r, identity_problem(*computer_name, *workgroup, *dns_suffix)),
{
    if let Some(name) = computer_name {
        if !is_computer_name(name.as_str()) {
            return Err(quote_after("invalid NetBIOS computer name ", name.as_str()));
        }
    }
    if let Some(w) = workgroup {
        if !is_workgroup(w.as_str()) {
            return Err(quote_after("invalid workgroup name ", w.as_str()));
        }
    }
    if let Some(d) = dns_suffix {
        if !is_dns_name(d.as_str()) {
            return Err(quote_after("invalid primary DNS suffix ", d.as_str()));
        }
    }
    Ok(())
}

} // verus!
