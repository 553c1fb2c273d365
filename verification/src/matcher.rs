//! Comparing interface selectors with each other, for the protection rule.

use vstd::prelude::*;

use crate::config::InterfaceSelector;
use crate::text;
use crate::text::{append, debug_text, dec, decimal, owned};

verus! {

/// A brace around a GUID.
pub open spec fn is_brace(c: char) -> bool {
    c == '{' || c == '}'
}

/// The text with leading braces removed.
pub open spec fn trim_start_braces(s: Seq<char>) -> Seq<char>
    decreases s.len(),
{
    if s.len() > 0 && is_brace(s[0]) {
        trim_start_braces(s.drop_first())
    } else {
        s
    }
}

/// The text with trailing braces removed.
pub open spec fn trim_end_braces(s: Seq<char>) -> Seq<char>
    decreases s.len(),
{
    if s.len() > 0 && is_brace(s.last()) {
        trim_end_braces(s.drop_last())
    } else {
        s
    }
}

/// `str::trim_matches(['{', '}'])`.
pub open spec fn guid_core(s: Seq<char>) -> Seq<char> {
    trim_end_braces(trim_start_braces(s))
}

/// The MAC text with separators removed and every other character uppercased
/// (`canonical_mac`).
pub open spec fn canonical_mac(s: Seq<char>) -> Seq<char>
    decreases s.len(),
{
    if s.len() == 0 {
        s
    } else if s.last() == ':' || s.last() == '-' {
        canonical_mac(s.drop_last())
    } else {
        canonical_mac(s.drop_last()) + text::upper_text(s.last())
    }
}

/// Both texts are present and equal ignoring ASCII case.
pub open spec fn opt_text_eq(a: Option<String>, b: Option<String>) -> bool {
    a is Some && b is Some && text::eq_ignore_case(a->0@, b->0@)
}

/// Both GUIDs are present and equal ignoring braces and ASCII case.
pub open spec fn opt_guid_eq(a: Option<String>, b: Option<String>) -> bool {
    a is Some && b is Some && text::eq_ignore_case(guid_core(a->0@), guid_core(b->0@))
}

/// Both MAC addresses are present and have the same canonical form.
pub open spec fn opt_mac_eq(a: Option<String>, b: Option<String>) -> bool {
    a is Some && b is Some && canonical_mac(a->0@) == canonical_mac(b->0@)
}

/// The two selectors name the same adapter through at least one stable field.
pub open spec fn shares_stable_matcher(p: InterfaceSelector, t: InterfaceSelector) -> bool {
    ||| (p.if_index is Some && t.if_index is Some && p.if_index->0 == t.if_index->0)
    ||| opt_text_eq(p.name, t.name)
    ||| opt_guid_eq(p.guid, t.guid)
    ||| opt_mac_eq(p.mac_address, t.mac_address)
    ||| opt_text_eq(p.description_contains, t.description_contains)
}

/// A short label for a selector in diagnostics (`selector_label`).
pub open spec fn selector_label(t: InterfaceSelector) -> Seq<char> {
    match t.if_index {
        Some(i) => "if_index="@ + dec(i as nat),
        None => match t.name {
            Some(n) => "name="@ + debug_text(n@),
            None => "stable selector"@,
        },
    }
}

/// The protection problem of a target selector against the protected ones, if any.
pub open spec fn protected_problem(protected: Seq<InterfaceSelector>, t: InterfaceSelector) -> Option<
    Seq<char>,
> {
    if exists|i: int| 0 <= i < protected.len() && shares_stable_matcher(#[trigger] protected[i], t) {
        Some(
            "configuration targets a protected management interface ("@ + selector_label(t)
                + ")"@,
        )
    } else {
        None
    }
}

proof fn lemma_ascii_case_char(x: char, y: char)
    requires
        text::is_ascii_char(x),
        text::is_ascii_char(y),
        text::ascii_lower(x) == text::ascii_lower(y),
    ensures
        (x == ':') == (y == ':'),
        (x == '-') == (y == '-'),
        text::ascii_upper(x) == text::ascii_upper(y),
{
    let a = x as u32;
    let b = y as u32;
    assert(a < 128 && b < 128);
    if 65 <= a <= 90 {
        assert(text::ascii_lower(x) == ((a + 32) as char));
    }
    if 65 <= b <= 90 {
        assert(text::ascii_lower(y) == ((b + 32) as char));
    }
    assert(((a + 32) as char) as u32 == a + 32);
    assert(((b + 32) as char) as u32 == b + 32);
    if 97 <= a <= 122 {
        assert(((a - 32) as char) as u32 == a - 32);
    }
    if 97 <= b <= 122 {
        assert(((b - 32) as char) as u32 == b - 32);
    }
}

/// MAC addresses that differ only in ASCII case have the same canonical
/// form, so selectors and protected interfaces match them alike.
pub proof fn lemma_canonical_mac_ignores_ascii_case(a: Seq<char>, b: Seq<char>)
    requires
        text::all_ascii(a),
        text::all_ascii(b),
        text::lower(a) == text::lower(b),
    ensures
        canonical_mac(a) == canonical_mac(b),
    decreases a.len(),
{
    assert(text::lower(a).len() == a.len());
    assert(text::lower(b).len() == b.len());
    if a.len() > 0 {
        let n = a.len() - 1;
        assert(text::lower(a.drop_last()) =~= text::lower(a).drop_last());
        assert(text::lower(b.drop_last()) =~= text::lower(b).drop_last());
        assert(text::lower(a)[n] == text::ascii_lower(a.last()));
        assert(text::lower(b)[n] == text::ascii_lower(b.last()));
        assert(text::is_ascii_char(a[n]));
        assert(text::is_ascii_char(b[n]));
        lemma_ascii_case_char(a.last(), b.last());
        lemma_canonical_mac_ignores_ascii_case(a.drop_last(), b.drop_last());
    }
}

/// Two selectors that both name an adapter, with names equal ignoring ASCII
/// case, name the same adapter; a target so named is a protected one.
pub proof fn lemma_same_name_is_protected(protected: Seq<InterfaceSelector>, j: int, t: InterfaceSelector)
    requires
        0 <= j < protected.len(),
        protected[j].name is Some,
        t.name is Some,
        text::eq_ignore_case(protected[j].name->0@, t.name->0@),
    ensures
        shares_stable_matcher(protected[j], t),
        protected_problem(protected, t) is Some,
{
    assert(shares_stable_matcher(protected[j], t));
}

/// Any stable field that both selectors supply and that names the same
/// adapter makes them name the same adapter: equal interface indexes, names
/// or description fragments equal ignoring ASCII case, GUIDs equal ignoring
/// braces and ASCII case, or MAC addresses with the same canonical form.
pub proof fn lemma_shared_stable_field_matches(p: InterfaceSelector, t: InterfaceSelector)
    ensures
        (p.if_index is Some && p.if_index == t.if_index) ==> shares_stable_matcher(p, t),
        (p.guid is Some && t.guid is Some && text::eq_ignore_case(guid_core(p.guid->0@), guid_core(t.guid->0@)))
            ==> shares_stable_matcher(p, t),
        (p.mac_address is Some && t.mac_address is Some && canonical_mac(p.mac_address->0@)
            == canonical_mac(t.mac_address->0@)) ==> shares_stable_matcher(p, t),
        (p.description_contains is Some && t.description_contains is Some && text::eq_ignore_case(
            p.description_contains->0@,
            t.description_contains->0@,
        )) ==> shares_stable_matcher(p, t),
        (p.if_index is None || t.if_index is None || p.if_index != t.if_index) && (p.name is None
            || t.name is None || !text::eq_ignore_case(p.name->0@, t.name->0@)) && (p.guid is None
            || t.guid is None || !text::eq_ignore_case(guid_core(p.guid->0@), guid_core(t.guid->0@)))
            && (p.mac_address is None || t.mac_address is None || canonical_mac(p.mac_address->0@)
            != canonical_mac(t.mac_address->0@)) && (p.description_contains is None
            || t.description_contains is None || !text::eq_ignore_case(
            p.description_contains->0@,
            t.description_contains->0@,
        )) ==> !shares_stable_matcher(p, t),
{
}

fn is_brace_char(c: char) -> (r: bool)
    ensures
        r == is_brace(c),
{
    c == '{' || c == '}'
}

/// The GUID text with surrounding braces removed.
pub fn trim_braces(s: &str) -> (r: Vec<char>)
    ensures
        r@ == guid_core(s@),
{
    let x = text::chars_of(s);
    let n = x.len();
    let mut a: usize = 0;
    proof {
        assert(s@.subrange(0, n as int) =~= s@);
    }
    while a < n && is_brace_char(x[a])
        invariant
            n == x@.len(),
            x@ == s@,
            a <= n,
            trim_start_braces(s@) == trim_start_braces(s@.subrange(a as int, n as int)),
        decreases n - a,
    {
        proof {
            assert(s@.subrange(a as int, n as int).drop_first() =~= s@.subrange(
                a + 1,
                n as int,
            ));
        }
        a = a + 1;
    }
    let ghost t = s@.subrange(a as int, n as int);
    proof {
        assert(trim_start_braces(s@) == t);
    }
    let mut b: usize = n;
    while b > a && is_brace_char(x[b - 1])
        invariant
            n == x@.len(),
            x@ == s@,
            a <= b <= n,
            t == s@.subrange(a as int, n as int),
            trim_end_braces(t) == trim_end_braces(s@.subrange(a as int, b as int)),
        decreases b - a,
    {
        proof {
            assert(s@.subrange(a as int, b as int).drop_last() =~= s@.subrange(
                a as int,
                b - 1,
            ));
        }
        b = b - 1;
    }
    let mut out: Vec<char> = Vec::new();
    let mut k = a;
    while k < b
        invariant
            n == x@.len(),
            x@ == s@,
            a <= k <= b <= n,
            out@ == s@.subrange(a as int, k as int),
        decreases b - k,
    {
        out.push(x[k]);
        proof {
            assert(s@.subrange(a as int, k + 1) =~= s@.subrange(a as int, k as int).push(
                s@[k as int],
            ));
        }
        k = k + 1;
    }
    proof {
        assert(trim_end_braces(t) == s@.subrange(a as int, b as int));
    }
    out
}

/// The canonical form of a MAC address text.
pub fn canonical_mac_chars(s: &str) -> (r: Vec<char>)
    ensures
        r@ == canonical_mac(s@),
{
    let x = text::chars_of(s);
    let n = x.len();
    let mut out: Vec<char> = Vec::new();
    for i in 0..n
        invariant
            n == x@.len(),
            x@ == s@,
            out@ == canonical_mac(s@.take(i as int)),
    {
        proof {
            assert(s@.take(i + 1).drop_last() =~= s@.take(i as int));
        }
        let c = x[i];
        if c != ':' && c != '-' {
            let u = text::char_uppercase(c);
            text::extend_chars(&mut out, u.as_str());
        }
    }
    proof {
        assert(s@.take(n as int) =~= s@);
    }
    out
}

fn opt_text_equal(a: &Option<String>, b: &Option<String>) -> (r: bool)
    ensures
        r == opt_text_eq(*a, *b),
{
    match (a, b) {
        (Some(x), Some(y)) => text::str_eq_ignore_case(x.as_str(), y.as_str()),
        _ => false,
    }
}

fn opt_guid_equal(a: &Option<String>, b: &Option<String>) -> (r: bool)
    ensures
        r == opt_guid_eq(*a, *b),
{
    match (a, b) {
        (Some(x), Some(y)) => {
            let p = trim_braces(x.as_str());
            let q = trim_braces(y.as_str());
            text::chars_eq_ignore_case(&p, &q)
        },
        _ => false,
    }
}

fn chars_equal(x: &Vec<char>, y: &Vec<char>) -> (r: bool)
    ensures
        r == (x@ == y@),
{
    if x.len() != y.len() {
        return false;
    }
    let n = x.len();
    for i in 0..n
        invariant
            n == x@.len(),
            n == y@.len(),
            forall|j: int| 0 <= j < i ==> x@[j] == y@[j],
    {
        if x[i] != y[i] {
            return false;
        }
    }
    proof {
        assert(x@ =~= y@);
    }
    true
}

fn opt_mac_equal(a: &Option<String>, b: &Option<String>) -> (r: bool)
    ensures
        r == opt_mac_eq(*a, *b),
{
    match (a, b) {
        (Some(x), Some(y)) => {
            let p = canonical_mac_chars(x.as_str());
            let q = canonical_mac_chars(y.as_str());
            chars_equal(&p, &q)
        },
        _ => false,
    }
}

/// Whether two selectors name the same adapter through a stable field
/// (`selectors_share_stable_matcher`).
pub fn selectors_share_stable_matcher(p: &InterfaceSelector, t: &InterfaceSelector) -> (r: bool)
    ensures
        r == shares_stable_matcher(*p, *t),
{
    let same_index = match (p.if_index, t.if_index) {
        (Some(x), Some(y)) => x == y,
        _ => false,
    };
    same_index || opt_text_equal(&p.name, &t.name) || opt_guid_equal(&p.guid, &t.guid)
        || opt_mac_equal(&p.mac_address, &t.mac_address) || opt_text_equal(
        &p.description_contains,
        &t.description_contains,
    )
}

/// The diagnostic label of a selector.
pub fn selector_label_string(t: &InterfaceSelector) -> (r: String)
    ensures
        r@ == selector_label(*t),
{
    match t.if_index {
        Some(i) => {
            let mut r = owned("if_index=");
            let d = decimal(i as u64);
            append(&mut r, d.as_str());
            r
        },
        None => match &t.name {
            Some(n) => crate::checks::quote_after("name=", n.as_str()),
            None => owned("stable selector"),
        },
    }
}

/// Rejects a target selector that shares a stable matcher with a protected one
/// (`reject_protected_selector`).
pub fn check_protected(protected: &Vec<InterfaceSelector>, t: &InterfaceSelector) -> (r: Result<
    (),
    String,
>)
    ensures
        crate::checks::agrees(r, protected_problem(protected@, *t)),
{
    let n = protected.len();
    for i in 0..n
        invariant
            n == protected@.len(),
            forall|j: int| 0 <= j < i ==> !shares_stable_matcher(#[trigger] protected@[j], *t),
    {
        if selectors_share_stable_matcher(&protected[i], t) {
            let mut r = owned("configuration targets a protected management interface (");
            let label = selector_label_string(t);
            append(&mut r, label.as_str());
            append(&mut r, ")");
            return Err(r);
        }
    }
    Ok(())
}

} // verus!
