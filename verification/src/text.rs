//! Character and string helpers with exact specifications.

use vstd::prelude::*;
use vstd::string::StringExecFns;
use vstd::utf8::encode_utf8;

verus! {

// ---------------------------------------------------------------------------
// Character classes
// ---------------------------------------------------------------------------

/// ASCII letter.
pub open spec fn is_ascii_alpha(c: char) -> bool {
    ('a' <= c && c <= 'z') || ('A' <= c && c <= 'Z')
}

/// ASCII decimal digit.
pub open spec fn is_ascii_digit(c: char) -> bool {
    '0' <= c && c <= '9'
}

/// ASCII letter or digit.
pub open spec fn is_ascii_alnum(c: char) -> bool {
    is_ascii_alpha(c) || is_ascii_digit(c)
}

/// ASCII hexadecimal digit.
pub open spec fn is_ascii_hex(c: char) -> bool {
    is_ascii_digit(c) || ('a' <= c && c <= 'f') || ('A' <= c && c <= 'F')
}

/// Value of an ASCII hexadecimal digit.
pub open spec fn hex_value(c: char) -> nat {
    if is_ascii_digit(c) {
        (c as nat - '0' as nat) as nat
    } else if 'a' <= c && c <= 'f' {
        (c as nat - 'a' as nat + 10) as nat
    } else {
        (c as nat - 'A' as nat + 10) as nat
    }
}

/// ASCII lowercase mapping; every other character is unchanged.
pub open spec fn ascii_lower(c: char) -> char {
    if 'A' <= c && c <= 'Z' {
        ((c as u32) + 32) as char
    } else {
        c
    }
}

/// Unicode `White_Space` property, the set used by `char::is_whitespace` and `str::trim`.
pub open spec fn is_whitespace(c: char) -> bool {
    ||| ('\u{9}' <= c && c <= '\u{d}')
    ||| c == ' '
    ||| c == '\u{85}'
    ||| c == '\u{a0}'
    ||| c == '\u{1680}'
    ||| ('\u{2000}' <= c && c <= '\u{200a}')
    ||| c == '\u{2028}'
    ||| c == '\u{2029}'
    ||| c == '\u{202f}'
    ||| c == '\u{205f}'
    ||| c == '\u{3000}'
}

pub fn char_is_ascii_alpha(c: char) -> (r: bool)
    ensures
        r == is_ascii_alpha(c),
{
    ('a' <= c && c <= 'z') || ('A' <= c && c <= 'Z')
}

pub fn char_is_ascii_digit(c: char) -> (r: bool)
    ensures
        r == is_ascii_digit(c),
{
    '0' <= c && c <= '9'
}

pub fn char_is_ascii_alnum(c: char) -> (r: bool)
    ensures
        r == is_ascii_alnum(c),
{
    char_is_ascii_alpha(c) || char_is_ascii_digit(c)
}

pub fn char_is_ascii_hex(c: char) -> (r: bool)
    ensures
        r == is_ascii_hex(c),
{
    char_is_ascii_digit(c) || ('a' <= c && c <= 'f') || ('A' <= c && c <= 'F')
}

pub fn char_hex_value(c: char) -> (r: u8)
    requires
        is_ascii_hex(c),
    ensures
        r as nat == hex_value(c),
        r < 16,
{
    let v = c as u32;
    if char_is_ascii_digit(c) {
        (v - 48) as u8
    } else if 'a' <= c && c <= 'f' {
        (v - 87) as u8
    } else {
        (v - 55) as u8
    }
}

pub fn char_ascii_lower(c: char) -> (r: char)
    ensures
        r == ascii_lower(c),
{
    if 'A' <= c && c <= 'Z' {
        let v = (c as u32) + 32;
        proof {
            assert(('a' as u32) <= v <= ('z' as u32));
        }
        char_from_ascii_letter(v)
    } else {
        c
    }
}

/// Converts the scalar value of a lowercase ASCII letter back into a character.
fn char_from_ascii_letter(v: u32) -> (r: char)
    requires
        ('a' as u32) <= v <= ('z' as u32),
    ensures
        r == v as char,
{
    let b = v as u8;
    b as char
}

pub fn char_is_whitespace(c: char) -> (r: bool)
    ensures
        r == is_whitespace(c),
{
    ('\u{9}' <= c && c <= '\u{d}') || c == ' ' || c == '\u{85}' || c == '\u{a0}' || c
        == '\u{1680}' || ('\u{2000}' <= c && c <= '\u{200a}') || c == '\u{2028}' || c
        == '\u{2029}' || c == '\u{202f}' || c == '\u{205f}' || c == '\u{3000}'
}

// ---------------------------------------------------------------------------
// Sequences of characters
// ---------------------------------------------------------------------------

/// ASCII-lowercased copy of a character sequence.
pub open spec fn lower(s: Seq<char>) -> Seq<char> {
    s.map_values(|c: char| ascii_lower(c))
}

/// `str::eq_ignore_ascii_case`.
pub open spec fn eq_ignore_case(a: Seq<char>, b: Seq<char>) -> bool {
    lower(a) == lower(b)
}

/// `str::trim(s).is_empty()`: every character is whitespace.
pub open spec fn blank(s: Seq<char>) -> bool {
    forall|i: int| 0 <= i < s.len() ==> is_whitespace(#[trigger] s[i])
}

/// The character occurs in the sequence.
pub open spec fn has_char(s: Seq<char>, c: char) -> bool {
    exists|i: int| 0 <= i < s.len() && s[i] == c
}

/// Some character of `s` is one of `set`.
pub open spec fn has_any(s: Seq<char>, set: Seq<char>) -> bool {
    exists|i: int| 0 <= i < s.len() && set.contains(#[trigger] s[i])
}

/// Number of bytes of the UTF-8 encoding (`str::len`).
pub open spec fn byte_len(s: Seq<char>) -> nat {
    encode_utf8(s).len()
}

/// The characters of a string slice, in order.
pub fn chars_of(s: &str) -> (out: Vec<char>)
    ensures
        out@ == s@,
{
    let mut out: Vec<char> = Vec::new();
    for c in it: s.chars()
        invariant
            out@ == it.seq().take(it.index() as int),
    {
        out.push(c);
    }
    out
}

/// `str::len`: the number of bytes of the UTF-8 encoding.
pub fn str_byte_len(s: &str) -> (n: usize)
    ensures
        n as nat == byte_len(s@),
{
    s.as_bytes().len()
}

/// `str::eq_ignore_ascii_case`.
pub fn str_eq_ignore_case(a: &str, b: &str) -> (r: bool)
    ensures
        r == eq_ignore_case(a@, b@),
{
    let x = chars_of(a);
    let y = chars_of(b);
    if x.len() != y.len() {
        proof {
            assert(lower(a@).len() != lower(b@).len());
        }
        return false;
    }
    let n = x.len();
    for i in 0..n
        invariant
            n == x@.len(),
            n == y@.len(),
            x@ == a@,
            y@ == b@,
            forall|j: int| 0 <= j < i ==> ascii_lower(#[trigger] x@[j]) == ascii_lower(y@[j]),
    {
        if char_ascii_lower(x[i]) != char_ascii_lower(y[i]) {
            proof {
                assert(lower(a@)[i as int] != lower(b@)[i as int]);
            }
            return false;
        }
    }
    proof {
        assert(lower(a@) =~= lower(b@));
    }
    true
}

/// `str::trim(s).is_empty()`.
pub fn str_is_blank(s: &str) -> (r: bool)
    ensures
        r == blank(s@),
{
    let x = chars_of(s);
    let n = x.len();
    for i in 0..n
        invariant
            n == x@.len(),
            x@ == s@,
            forall|j: int| 0 <= j < i ==> is_whitespace(#[trigger] x@[j]),
    {
        if !char_is_whitespace(x[i]) {
            return false;
        }
    }
    true
}

/// The character occurs in the string.
pub fn str_has_char(s: &str, c: char) -> (r: bool)
    ensures
        r == has_char(s@, c),
{
    let x = chars_of(s);
    let n = x.len();
    for i in 0..n
        invariant
            n == x@.len(),
            x@ == s@,
            forall|j: int| 0 <= j < i ==> x@[j] != c,
    {
        if x[i] == c {
            return true;
        }
    }
    false
}

/// Some character of the string is one of `set`.
pub fn str_has_any(s: &str, set: &[char]) -> (r: bool)
    ensures
        r == has_any(s@, set@),
{
    let x = chars_of(s);
    let n = x.len();
    for i in 0..n
        invariant
            n == x@.len(),
            x@ == s@,
            forall|j: int| 0 <= j < i ==> !set@.contains(#[trigger] x@[j]),
    {
        let m = set.len();
        for k in 0..m
            invariant
                m == set@.len(),
                i < n,
                n == x@.len(),
                x@ == s@,
                forall|l: int| 0 <= l < k ==> set@[l] != x@[i as int],
        {
            if set[k] == x[i] {
                proof {
                    assert(set@[k as int] == x@[i as int]);
                    assert(set@.contains(s@[i as int]));
                }
                return true;
            }
        }
    }
    false
}

/// Whether `s` ends with `suffix` after ASCII lowercasing.
pub open spec fn lower_ends_with(s: Seq<char>, suffix: Seq<char>) -> bool {
    suffix.len() <= s.len() && lower(s).subrange(s.len() - suffix.len(), s.len() as int)
        == suffix
}

pub fn str_lower_ends_with(s: &str, suffix: &str) -> (r: bool)
    ensures
        r == lower_ends_with(s@, suffix@),
{
    let x = chars_of(s);
    let y = chars_of(suffix);
    if y.len() > x.len() {
        return false;
    }
    let off = x.len() - y.len();
    let m = y.len();
    let xl = x.len();
    for k in 0..m
        invariant
            m == y@.len(),
            xl == x@.len(),
            off + m == xl,
            x@ == s@,
            y@ == suffix@,
            forall|l: int| 0 <= l < k ==> ascii_lower(x@[off + l]) == #[trigger] y@[l],
    {
        if char_ascii_lower(x[off + k]) != y[k] {
            proof {
                assert(lower(s@).subrange(off as int, s@.len() as int)[k as int] != y@[k as int]);
            }
            return false;
        }
    }
    proof {
        assert(lower(s@).subrange(off as int, s@.len() as int) =~= suffix@);
    }
    true
}

/// Whether `s` starts with `prefix`.
pub open spec fn starts_with(s: Seq<char>, prefix: Seq<char>) -> bool {
    prefix.len() <= s.len() && s.subrange(0, prefix.len() as int) == prefix
}

// ---------------------------------------------------------------------------
// Building strings
// ---------------------------------------------------------------------------

/// Appends one character to a string (`String::push`).
#[verifier::external_body]
pub fn push_char(s: &mut String, c: char)
    ensures
        final(s)@ == old(s)@.push(c),
{
    s.push(c);
}

/// A new string holding the given characters.
pub fn string_of(cs: &Vec<char>) -> (s: String)
    ensures
        s@ == cs@,
{
    let mut s = String::new();
    let n = cs.len();
    for i in 0..n
        invariant
            n == cs@.len(),
            s@ == cs@.take(i as int),
    {
        push_char(&mut s, cs[i]);
        proof {
            assert(cs@.take(i + 1) =~= cs@.take(i as int).push(cs@[i as int]));
        }
    }
    proof {
        assert(cs@.take(n as int) =~= cs@);
    }
    s
}

/// An owned copy of a string slice.
pub fn owned(s: &str) -> (r: String)
    ensures
        r@ == s@,
{
    String::from_str(s)
}

/// Appends a string slice.
pub fn append(s: &mut String, t: &str)
    ensures
        final(s)@ == old(s)@ + t@,
{
    s.append(t);
}

/// Decimal digits of a natural number, without leading zeros (`0` for zero).
pub open spec fn dec(n: nat) -> Seq<char>
    decreases n,
{
    if n < 10 {
        seq![digit_char(n)]
    } else {
        dec(n / 10).push(digit_char(n % 10))
    }
}

/// The ASCII digit for a value below ten.
pub open spec fn digit_char(d: nat) -> char {
    ((d + 48) as u32) as char
}

fn digit(d: u64) -> (c: char)
    requires
        d < 10,
    ensures
        c == digit_char(d as nat),
{
    let b = (d + 48) as u8;
    b as char
}

/// Decimal rendering of an unsigned integer (`u64`'s `Display`).
pub fn decimal(n: u64) -> (s: String)
    ensures
        s@ == dec(n as nat),
    decreases n,
{
    if n < 10 {
        let mut s = String::new();
        push_char(&mut s, digit(n));
        proof {
            assert(s@ =~= dec(n as nat));
        }
        s
    } else {
        let mut s = decimal(n / 10);
        push_char(&mut s, digit(n % 10));
        s
    }
}

/// Rust's `Debug` rendering of a string slice: the quoted, escaped form.
pub uninterp spec fn debug_text(s: Seq<char>) -> Seq<char>;

/// Calls `<str as Debug>::fmt` through `format!("{:?}")`. The escaping rules of the
/// standard library (quotes, backslashes, control and non-printable characters) are
/// not restated here; the result is named by `debug_text`.
#[verifier::external_body]
pub fn debug_string(s: &str) -> (r: String)
    ensures
        r@ == debug_text(s@),
{
    format!("{:?}", s)
}

} // verus!

verus! {

/// `eq_ignore_ascii_case` over character vectors.
pub fn chars_eq_ignore_case(x: &Vec<char>, y: &Vec<char>) -> (r: bool)
    ensures
        r == eq_ignore_case(x@, y@),
{
    if x.len() != y.len() {
        proof {
            assert(lower(x@).len() != lower(y@).len());
        }
        return false;
    }
    let n = x.len();
    for i in 0..n
        invariant
            n == x@.len(),
            n == y@.len(),
            forall|j: int| 0 <= j < i ==> ascii_lower(#[trigger] x@[j]) == ascii_lower(y@[j]),
    {
        if char_ascii_lower(x[i]) != char_ascii_lower(y[i]) {
            proof {
                assert(lower(x@)[i as int] != lower(y@)[i as int]);
            }
            return false;
        }
    }
    proof {
        assert(lower(x@) =~= lower(y@));
    }
    true
}

/// The ASCII-lowercased copy of a string (`str::to_ascii_lowercase`).
pub fn ascii_lowercase(s: &str) -> (r: Vec<char>)
    ensures
        r@ == lower(s@),
{
    let x = chars_of(s);
    let mut out: Vec<char> = Vec::new();
    let n = x.len();
    for i in 0..n
        invariant
            n == x@.len(),
            x@ == s@,
            out@ == lower(s@).take(i as int),
    {
        out.push(char_ascii_lower(x[i]));
        proof {
            assert(lower(s@).take(i + 1) =~= lower(s@).take(i as int).push(ascii_lower(x@[i as int])));
        }
    }
    proof {
        assert(lower(s@).take(n as int) =~= lower(s@));
    }
    out
}

/// An ASCII character.
pub open spec fn is_ascii_char(c: char) -> bool {
    (c as u32) < 128
}

/// Every character of the text is ASCII.
pub open spec fn all_ascii(s: Seq<char>) -> bool {
    forall|i: int| 0 <= i < s.len() ==> is_ascii_char(#[trigger] s[i])
}

/// ASCII uppercase mapping; every other character is unchanged.
pub open spec fn ascii_upper(c: char) -> char {
    if 'a' <= c && c <= 'z' {
        ((c as u32) - 32) as char
    } else {
        c
    }
}

/// Unicode uppercase mapping of one character (`char::to_uppercase`), which may expand to
/// several characters.
pub uninterp spec fn upper(c: char) -> Seq<char>;

/// The uppercase form of a character: its ASCII uppercase for an ASCII
/// character, else the Unicode mapping named by `upper`.
pub open spec fn upper_text(c: char) -> Seq<char> {
    if is_ascii_char(c) {
        seq![ascii_upper(c)]
    } else {
        upper(c)
    }
}

/// Collects `char::to_uppercase` into a string. An ASCII character maps to its
/// ASCII uppercase (one character); the other Unicode case tables are not
/// restated, and that result is named by `upper`.
#[verifier::external_body]
pub fn char_uppercase(c: char) -> (r: String)
    ensures
        r@ == upper(c),
        is_ascii_char(c) ==> r@ == seq![ascii_upper(c)],
{
    c.to_uppercase().collect()
}

/// Unicode lowercase mapping of a string (`str::to_lowercase`), which may change its
/// length and treats a final sigma specially.
pub uninterp spec fn unicode_lower(s: Seq<char>) -> Seq<char>;

/// The lowercase form of a text: its ASCII lowercase for ASCII text, else the
/// Unicode mapping named by `unicode_lower`.
pub open spec fn lower_text(s: Seq<char>) -> Seq<char> {
    if all_ascii(s) {
        lower(s)
    } else {
        unicode_lower(s)
    }
}

/// `str::to_lowercase`. ASCII text maps to its ASCII lowercase; the other
/// Unicode case tables are not restated, and that result is named by
/// `unicode_lower`.
#[verifier::external_body]
pub fn to_lowercase(s: &str) -> (r: String)
    ensures
        r@ == unicode_lower(s@),
        all_ascii(s@) ==> r@ == lower(s@),
{
    s.to_lowercase()
}

} // verus!

verus! {

/// Appends the characters of a string slice to a character vector.
pub fn extend_chars(out: &mut Vec<char>, s: &str)
    ensures
        final(out)@ == old(out)@ + s@,
{
    let x = chars_of(s);
    let n = x.len();
    let ghost start = out@;
    for i in 0..n
        invariant
            n == x@.len(),
            x@ == s@,
            out@ == start + s@.take(i as int),
    {
        out.push(x[i]);
        proof {
            assert(s@.take(i + 1) =~= s@.take(i as int).push(x@[i as int]));
            assert(start + s@.take(i + 1) =~= (start + s@.take(i as int)).push(x@[i as int]));
        }
    }
    proof {
        assert(s@.take(n as int) =~= s@);
    }
}

} // verus!
