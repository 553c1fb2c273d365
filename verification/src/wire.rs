//! Byte-level building blocks of the frame codec: little-endian integers,
//! flags, length-prefixed byte strings and UTF-8 text, and counted lists.
//!
//! Every encoder `put_*` has a decoder `get_*` that reads a value back from a
//! position of a buffer, and a lemma showing that the decoder recovers the
//! value wherever its encoding occurs.

use vstd::prelude::*;
use vstd::utf8::*;

verus! {

broadcast use vstd::utf8::group_utf8_lib;

/// Largest length that a `u32` length prefix can describe.
pub open spec fn max_len() -> int {
    0xffff_ffff
}

/// `s` occurs in `b` starting at position `p`.
#[verifier::opaque]
pub open spec fn contains_at(b: Seq<u8>, p: int, s: Seq<u8>) -> bool {
    &&& 0 <= p
    &&& p + s.len() <= b.len()
    &&& forall|i: int| 0 <= i < s.len() ==> b[p + i] == #[trigger] s[i]
}

/// An occurrence of a concatenation is an occurrence of each part.
pub proof fn lemma_split(b: Seq<u8>, p: int, s1: Seq<u8>, s2: Seq<u8>)
    requires
        contains_at(b, p, s1 + s2),
    ensures
        contains_at(b, p, s1),
        contains_at(b, p + s1.len(), s2),
{
    reveal(contains_at);
    assert forall|i: int| 0 <= i < s1.len() implies b[p + i] == #[trigger] s1[i] by {
        assert((s1 + s2)[i] == s1[i]);
    }
    assert forall|i: int| 0 <= i < s2.len() implies b[p + s1.len() + i] == #[trigger] s2[i] by {
        assert((s1 + s2)[s1.len() + i] == s2[i]);
    }
}

/// An occurrence is the subrange it covers.
pub proof fn lemma_subrange(b: Seq<u8>, p: int, s: Seq<u8>)
    requires
        contains_at(b, p, s),
    ensures
        b.subrange(p, p + s.len()) == s,
        0 <= p,
        p + s.len() <= b.len(),
{
    reveal(contains_at);
    assert(b.subrange(p, p + s.len()) =~= s);
}

/// Every sequence occurs in itself at position 0.
pub proof fn lemma_whole(s: Seq<u8>)
    ensures
        contains_at(s, 0, s),
{
    reveal(contains_at);
    assert forall|i: int| 0 <= i < s.len() implies s[0 + i] == #[trigger] s[i] by {}
}

// ---------------------------------------------------------------------------
// Integers
// ---------------------------------------------------------------------------

/// Little-endian bytes of a `u32`.
pub open spec fn le32(v: u32) -> Seq<u8> {
    seq![
        (v % 256) as u8,
        ((v / 256) % 256) as u8,
        ((v / 65536) % 256) as u8,
        (v / 16777216) as u8,
    ]
}

/// The `u32` stored little-endian at `p`.
pub open spec fn u32_at(b: Seq<u8>, p: int) -> int {
    b[p] + 256 * b[p + 1] + 65536 * b[p + 2] + 16777216 * b[p + 3]
}

/// Little-endian bytes of a `u64`.
pub open spec fn le64(v: u64) -> Seq<u8> {
    le32((v % 0x1_0000_0000) as u32) + le32((v / 0x1_0000_0000) as u32)
}

/// The `u64` stored little-endian at `p`.
pub open spec fn u64_at(b: Seq<u8>, p: int) -> int {
    u32_at(b, p) + 0x1_0000_0000 * u32_at(b, p + 4)
}

pub proof fn lemma_u32_at(b: Seq<u8>, p: int, v: u32)
    requires
        contains_at(b, p, le32(v)),
    ensures
        u32_at(b, p) == v as int,
{
    reveal(contains_at);
    let s = le32(v);
    assert(b[p + 0] == s[0]);
    assert(b[p + 1] == s[1]);
    assert(b[p + 2] == s[2]);
    assert(b[p + 3] == s[3]);
    let x = v as int;
    assert(x % 256 + 256 * ((x / 256) % 256) + 65536 * ((x / 65536) % 256) + 16777216 * (x
        / 16777216) == x) by (nonlinear_arith)
        requires
            0 <= x < 0x1_0000_0000,
    ;
}

pub proof fn lemma_u64_at(b: Seq<u8>, p: int, v: u64)
    requires
        contains_at(b, p, le64(v)),
    ensures
        u64_at(b, p) == v as int,
{
    reveal(contains_at);
    let lo = (v % 0x1_0000_0000) as u32;
    let hi = (v / 0x1_0000_0000) as u32;
    lemma_split(b, p, le32(lo), le32(hi));
    lemma_u32_at(b, p, lo);
    lemma_u32_at(b, p + 4, hi);
}

/// Appends the little-endian bytes of `v`.
pub fn write_u32(out: &mut Vec<u8>, v: u32)
    ensures
        final(out)@ == old(out)@ + le32(v),
{
    out.push((v % 256) as u8);
    out.push(((v / 256) % 256) as u8);
    out.push(((v / 65536) % 256) as u8);
    out.push((v / 16777216) as u8);
    assert(out@ =~= old(out)@ + le32(v));
}

/// Appends the little-endian bytes of `v`.
pub fn write_u64(out: &mut Vec<u8>, v: u64)
    ensures
        final(out)@ == old(out)@ + le64(v),
{
    let lo = (v % 0x1_0000_0000) as u32;
    let hi = (v / 0x1_0000_0000) as u32;
    write_u32(out, lo);
    write_u32(out, hi);
    assert(out@ =~= old(out)@ + le64(v));
}

/// Reads the `u32` stored little-endian at `p`.
pub fn read_u32(b: &[u8], p: usize) -> (r: u32)
    requires
        p + 4 <= b@.len(),
    ensures
        r as int == u32_at(b@, p as int),
{
    let b0 = b[p] as u32;
    let b1 = b[p + 1] as u32;
    let b2 = b[p + 2] as u32;
    let b3 = b[p + 3] as u32;
    b0 + b1 * 256 + b2 * 65536 + b3 * 16777216
}

/// Reads the `u64` stored little-endian at `p`.
pub fn read_u64(b: &[u8], p: usize) -> (r: u64)
    requires
        p + 8 <= b@.len(),
    ensures
        r as int == u64_at(b@, p as int),
{
    let n = b.len();
    assert(p + 8 <= n);
    let lo = read_u32(b, p) as u64;
    let hi = read_u32(b, p + 4) as u64;
    lo + hi * 0x1_0000_0000
}

// ---------------------------------------------------------------------------
// Single bytes and flags
// ---------------------------------------------------------------------------

/// One byte.
pub open spec fn put_u8(v: u8) -> Seq<u8> {
    seq![v]
}

/// The byte at `p`.
pub closed spec fn get_u8(b: Seq<u8>, p: int) -> Option<(u8, int)> {
    if 0 <= p < b.len() {
        Some((b[p], p + 1))
    } else {
        None
    }
}

/// A flag is one byte, 1 for true.
pub open spec fn put_bool(v: bool) -> Seq<u8> {
    seq![if v { 1u8 } else { 0u8 }]
}

/// A flag is true when its byte is not zero.
pub closed spec fn get_bool(b: Seq<u8>, p: int) -> Option<(bool, int)> {
    if 0 <= p < b.len() {
        Some((b[p] != 0, p + 1))
    } else {
        None
    }
}

/// A 32-bit integer.
pub open spec fn put_u32(v: u32) -> Seq<u8> {
    le32(v)
}

pub closed spec fn get_u32(b: Seq<u8>, p: int) -> Option<(u32, int)> {
    if 0 <= p && p + 4 <= b.len() {
        Some((u32_at(b, p) as u32, p + 4))
    } else {
        None
    }
}

/// A 64-bit integer.
pub open spec fn put_u64(v: u64) -> Seq<u8> {
    le64(v)
}

pub closed spec fn get_u64(b: Seq<u8>, p: int) -> Option<(u64, int)> {
    if 0 <= p && p + 8 <= b.len() {
        Some((u64_at(b, p) as u64, p + 8))
    } else {
        None
    }
}

pub proof fn lemma_get_u8(b: Seq<u8>, p: int, v: u8)
    requires
        contains_at(b, p, put_u8(v)),
    ensures
        get_u8(b, p) == Some((v, p + 1)),
{
    reveal(contains_at);
    assert(b[p + 0] == put_u8(v)[0]);
}

pub proof fn lemma_get_bool(b: Seq<u8>, p: int, v: bool)
    requires
        contains_at(b, p, put_bool(v)),
    ensures
        get_bool(b, p) == Some((v, p + 1)),
{
    reveal(contains_at);
    assert(b[p + 0] == put_bool(v)[0]);
}

pub proof fn lemma_get_u32(b: Seq<u8>, p: int, v: u32)
    requires
        contains_at(b, p, put_u32(v)),
    ensures
        get_u32(b, p) == Some((v, p + 4)),
{
    reveal(contains_at);
    lemma_u32_at(b, p, v);
}

pub proof fn lemma_get_u64(b: Seq<u8>, p: int, v: u64)
    requires
        contains_at(b, p, put_u64(v)),
    ensures
        get_u64(b, p) == Some((v, p + 8)),
{
    reveal(contains_at);
    lemma_u64_at(b, p, v);
}

pub fn write_u8(out: &mut Vec<u8>, v: u8)
    ensures
        final(out)@ == old(out)@ + put_u8(v),
{
    out.push(v);
    assert(out@ =~= old(out)@ + put_u8(v));
}

pub fn write_bool(out: &mut Vec<u8>, v: bool)
    ensures
        final(out)@ == old(out)@ + put_bool(v),
{
    out.push(if v { 1u8 } else { 0u8 });
    assert(out@ =~= old(out)@ + put_bool(v));
}

pub fn read_u8(b: &[u8], p: usize) -> (r: Option<(u8, usize)>)
    ensures
        match r {
            Some((v, q)) => get_u8(b@, p as int) == Some((v, q as int)),
            None => get_u8(b@, p as int) is None,
        },
{
    if p < b.len() {
        Some((b[p], p + 1))
    } else {
        None
    }
}

pub fn read_bool(b: &[u8], p: usize) -> (r: Option<(bool, usize)>)
    ensures
        match r {
            Some((v, q)) => get_bool(b@, p as int) == Some((v, q as int)),
            None => get_bool(b@, p as int) is None,
        },
{
    if p < b.len() {
        Some((b[p] != 0, p + 1))
    } else {
        None
    }
}

pub fn read_u32_at(b: &[u8], p: usize) -> (r: Option<(u32, usize)>)
    ensures
        match r {
            Some((v, q)) => get_u32(b@, p as int) == Some((v, q as int)),
            None => get_u32(b@, p as int) is None,
        },
{
    if p <= b.len() && b.len() - p >= 4 {
        let v = read_u32(b, p);
        Some((v, p + 4))
    } else {
        None
    }
}

pub fn read_u64_at(b: &[u8], p: usize) -> (r: Option<(u64, usize)>)
    ensures
        match r {
            Some((v, q)) => get_u64(b@, p as int) == Some((v, q as int)),
            None => get_u64(b@, p as int) is None,
        },
{
    if p <= b.len() && b.len() - p >= 8 {
        let v = read_u64(b, p);
        Some((v, p + 8))
    } else {
        None
    }
}

// ---------------------------------------------------------------------------
// Byte strings and text
// ---------------------------------------------------------------------------

/// A byte string: its length as a `u32`, then its bytes.
pub open spec fn put_bytes(d: Seq<u8>) -> Seq<u8> {
    le32(d.len() as u32) + d
}

pub closed spec fn get_bytes(b: Seq<u8>, p: int) -> Option<(Seq<u8>, int)> {
    if 0 <= p && p + 4 <= b.len() && p + 4 + u32_at(b, p) <= b.len() {
        Some((b.subrange(p + 4, p + 4 + u32_at(b, p)), p + 4 + u32_at(b, p)))
    } else {
        None
    }
}

/// Text is the byte string of its UTF-8 encoding.
pub open spec fn put_text(s: Seq<char>) -> Seq<u8> {
    put_bytes(encode_utf8(s))
}

/// Text decodes only from valid UTF-8.
pub closed spec fn get_text(b: Seq<u8>, p: int) -> Option<(Seq<char>, int)> {
    match get_bytes(b, p) {
        Some((d, q)) => if valid_utf8(d) {
            Some((decode_utf8(d), q))
        } else {
            None
        },
        None => None,
    }
}

pub proof fn lemma_get_bytes(b: Seq<u8>, p: int, d: Seq<u8>)
    requires
        contains_at(b, p, put_bytes(d)),
        d.len() <= max_len(),
    ensures
        get_bytes(b, p) == Some((d, p + put_bytes(d).len())),
{
    reveal(contains_at);
    lemma_split(b, p, le32(d.len() as u32), d);
    lemma_u32_at(b, p, d.len() as u32);
    assert(b.subrange(p + 4, p + 4 + d.len()) =~= d);
}

pub proof fn lemma_get_text(b: Seq<u8>, p: int, s: Seq<char>)
    requires
        contains_at(b, p, put_text(s)),
        put_text(s).len() <= max_len(),
    ensures
        get_text(b, p) == Some((s, p + put_text(s).len())),
{
    lemma_get_bytes(b, p, encode_utf8(s));
}

/// `String::from_utf8` from std: the bytes become a string exactly when they
/// are valid UTF-8, and the string then holds exactly those bytes.
#[verifier::external_body]
fn string_from_utf8(bytes: Vec<u8>) -> (r: Option<String>)
    ensures
        r is Some <==> valid_utf8(bytes@),
        r matches Some(s) ==> encode_utf8(s@) == bytes@,
{
    String::from_utf8(bytes).ok()
}

/// Appends a byte string.
pub fn write_bytes(out: &mut Vec<u8>, d: &[u8])
    requires
        d@.len() <= max_len(),
    ensures
        final(out)@ == old(out)@ + put_bytes(d@),
{
    write_u32(out, d.len() as u32);
    let ghost start = out@;
    let n = d.len();
    for i in 0..n
        invariant
            n == d@.len(),
            out@ == start + d@.take(i as int),
    {
        out.push(d[i]);
        assert(d@.take(i + 1) =~= d@.take(i as int).push(d@[i as int]));
    }
    assert(d@.take(n as int) =~= d@);
    assert(out@ =~= old(out)@ + put_bytes(d@));
}

/// Appends text as its UTF-8 byte string.
pub fn write_text(out: &mut Vec<u8>, s: &str)
    requires
        encode_utf8(s@).len() <= max_len(),
    ensures
        final(out)@ == old(out)@ + put_text(s@),
{
    write_bytes(out, s.as_bytes());
}

/// Reads a byte string at `p`.
pub fn read_bytes(b: &[u8], p: usize) -> (r: Option<(Vec<u8>, usize)>)
    ensures
        match r {
            Some((d, q)) => get_bytes(b@, p as int) == Some((d@, q as int)),
            None => get_bytes(b@, p as int) is None,
        },
{
    let len = b.len();
    if p > len || len - p < 4 {
        return None;
    }
    let n = read_u32(b, p) as usize;
    if len - p - 4 < n {
        return None;
    }
    let start = p + 4;
    let mut d: Vec<u8> = Vec::new();
    for i in 0..n
        invariant
            len == b@.len(),
            start + n <= len,
            d@ == b@.subrange(start as int, start + i),
    {
        d.push(b[start + i]);
        assert(b@.subrange(start as int, start + i + 1) =~= b@.subrange(start as int, start + i).push(
            b@[start + i],
        ));
    }
    Some((d, start + n))
}

/// Reads UTF-8 text at `p`.
pub fn read_text(b: &[u8], p: usize) -> (r: Option<(String, usize)>)
    ensures
        match r {
            Some((s, q)) => get_text(b@, p as int) == Some((s@, q as int)),
            None => get_text(b@, p as int) is None,
        },
{
    match read_bytes(b, p) {
        None => None,
        Some((d, q)) => {
            let ghost bytes = d@;
            match string_from_utf8(d) {
                None => None,
                Some(s) => {
                    proof {
                        encode_utf8_decode_utf8(s@);
                    }
                    Some((s, q))
                },
            }
        },
    }
}

// ---------------------------------------------------------------------------
// Optional values
// ---------------------------------------------------------------------------

/// Optional text: a presence flag, then the text when present.
pub open spec fn put_opt_text(o: Option<Seq<char>>) -> Seq<u8> {
    match o {
        Some(s) => put_bool(true) + put_text(s),
        None => put_bool(false),
    }
}

pub closed spec fn get_opt_text(b: Seq<u8>, p: int) -> Option<(Option<Seq<char>>, int)> {
    match get_bool(b, p) {
        Some((present, q)) => if present {
            match get_text(b, q) {
                Some((s, r)) => Some((Some(s), r)),
                None => None,
            }
        } else {
            Some((None, q))
        },
        None => None,
    }
}

/// An optional `u32` is a presence flag and a value that is 0 when absent.
pub open spec fn put_opt_u32(o: Option<u32>) -> Seq<u8> {
    match o {
        Some(v) => put_bool(true) + put_u32(v),
        None => put_bool(false) + put_u32(0),
    }
}

/// The value of an absent `u32` is ignored.
pub closed spec fn get_opt_u32(b: Seq<u8>, p: int) -> Option<(Option<u32>, int)> {
    match get_bool(b, p) {
        Some((present, q)) => match get_u32(b, q) {
            Some((v, r)) => Some((if present { Some(v) } else { None }, r)),
            None => None,
        },
        None => None,
    }
}

/// An optional byte is a presence flag and a value that is 0 when absent.
pub open spec fn put_opt_u8(o: Option<u8>) -> Seq<u8> {
    match o {
        Some(v) => put_bool(true) + put_u8(v),
        None => put_bool(false) + put_u8(0),
    }
}

pub closed spec fn get_opt_u8(b: Seq<u8>, p: int) -> Option<(Option<u8>, int)> {
    match get_bool(b, p) {
        Some((present, q)) => match get_u8(b, q) {
            Some((v, r)) => Some((if present { Some(v) } else { None }, r)),
            None => None,
        },
        None => None,
    }
}

/// An optional flag is a presence flag and a value that is false when absent.
pub open spec fn put_opt_bool(o: Option<bool>) -> Seq<u8> {
    match o {
        Some(v) => put_bool(true) + put_bool(v),
        None => put_bool(false) + put_bool(false),
    }
}

pub closed spec fn get_opt_bool(b: Seq<u8>, p: int) -> Option<(Option<bool>, int)> {
    match get_bool(b, p) {
        Some((present, q)) => match get_bool(b, q) {
            Some((v, r)) => Some((if present { Some(v) } else { None }, r)),
            None => None,
        },
        None => None,
    }
}

pub proof fn lemma_get_opt_text(b: Seq<u8>, p: int, o: Option<Seq<char>>)
    requires
        contains_at(b, p, put_opt_text(o)),
        put_opt_text(o).len() <= max_len(),
    ensures
        get_opt_text(b, p) == Some((o, p + put_opt_text(o).len())),
{
    match o {
        Some(s) => {
            lemma_split(b, p, put_bool(true), put_text(s));
            lemma_get_bool(b, p, true);
            lemma_get_text(b, p + 1, s);
        },
        None => {
            lemma_get_bool(b, p, false);
        },
    }
}

pub proof fn lemma_get_opt_u32(b: Seq<u8>, p: int, o: Option<u32>)
    requires
        contains_at(b, p, put_opt_u32(o)),
    ensures
        get_opt_u32(b, p) == Some((o, p + put_opt_u32(o).len())),
{
    let v = match o {
        Some(v) => v,
        None => 0u32,
    };
    lemma_split(b, p, put_bool(o is Some), put_u32(v));
    lemma_get_bool(b, p, o is Some);
    lemma_get_u32(b, p + 1, v);
}

pub proof fn lemma_get_opt_u8(b: Seq<u8>, p: int, o: Option<u8>)
    requires
        contains_at(b, p, put_opt_u8(o)),
    ensures
        get_opt_u8(b, p) == Some((o, p + put_opt_u8(o).len())),
{
    let v = match o {
        Some(v) => v,
        None => 0u8,
    };
    lemma_split(b, p, put_bool(o is Some), put_u8(v));
    lemma_get_bool(b, p, o is Some);
    lemma_get_u8(b, p + 1, v);
}

pub proof fn lemma_get_opt_bool(b: Seq<u8>, p: int, o: Option<bool>)
    requires
        contains_at(b, p, put_opt_bool(o)),
    ensures
        get_opt_bool(b, p) == Some((o, p + put_opt_bool(o).len())),
{
    let v = match o {
        Some(v) => v,
        None => false,
    };
    lemma_split(b, p, put_bool(o is Some), put_bool(v));
    lemma_get_bool(b, p, o is Some);
    lemma_get_bool(b, p + 1, v);
}

pub fn write_opt_text(out: &mut Vec<u8>, o: &Option<String>)
    requires
        put_opt_text(o.deep_view()).len() <= max_len(),
    ensures
        final(out)@ == old(out)@ + put_opt_text(o.deep_view()),
{
    match o {
        Some(s) => {
            write_bool(out, true);
            write_text(out, s.as_str());
        },
        None => write_bool(out, false),
    }
    assert(out@ =~= old(out)@ + put_opt_text(o.deep_view()));
}

pub fn write_opt_u32(out: &mut Vec<u8>, o: Option<u32>)
    ensures
        final(out)@ == old(out)@ + put_opt_u32(o),
{
    match o {
        Some(v) => {
            write_bool(out, true);
            write_u32(out, v);
        },
        None => {
            write_bool(out, false);
            write_u32(out, 0);
        },
    }
    assert(out@ =~= old(out)@ + put_opt_u32(o));
}

pub fn write_opt_u8(out: &mut Vec<u8>, o: Option<u8>)
    ensures
        final(out)@ == old(out)@ + put_opt_u8(o),
{
    match o {
        Some(v) => {
            write_bool(out, true);
            write_u8(out, v);
        },
        None => {
            write_bool(out, false);
            write_u8(out, 0);
        },
    }
    assert(out@ =~= old(out)@ + put_opt_u8(o));
}

pub fn write_opt_bool(out: &mut Vec<u8>, o: Option<bool>)
    ensures
        final(out)@ == old(out)@ + put_opt_bool(o),
{
    match o {
        Some(v) => {
            write_bool(out, true);
            write_bool(out, v);
        },
        None => {
            write_bool(out, false);
            write_bool(out, false);
        },
    }
    assert(out@ =~= old(out)@ + put_opt_bool(o));
}

pub fn read_opt_text(b: &[u8], p: usize) -> (r: Option<(Option<String>, usize)>)
    ensures
        match r {
            Some((o, q)) => get_opt_text(b@, p as int) == Some((o.deep_view(), q as int)),
            None => get_opt_text(b@, p as int) is None,
        },
{
    let (present, q) = read_bool(b, p)?;
    if present {
        let (s, r) = read_text(b, q)?;
        Some((Some(s), r))
    } else {
        Some((None, q))
    }
}

pub fn read_opt_u32(b: &[u8], p: usize) -> (r: Option<(Option<u32>, usize)>)
    ensures
        match r {
            Some((o, q)) => get_opt_u32(b@, p as int) == Some((o, q as int)),
            None => get_opt_u32(b@, p as int) is None,
        },
{
    let (present, q) = read_bool(b, p)?;
    let (v, r) = read_u32_at(b, q)?;
    Some((if present { Some(v) } else { None }, r))
}

pub fn read_opt_u8(b: &[u8], p: usize) -> (r: Option<(Option<u8>, usize)>)
    ensures
        match r {
            Some((o, q)) => get_opt_u8(b@, p as int) == Some((o, q as int)),
            None => get_opt_u8(b@, p as int) is None,
        },
{
    let (present, q) = read_bool(b, p)?;
    let (v, r) = read_u8(b, q)?;
    Some((if present { Some(v) } else { None }, r))
}

pub fn read_opt_bool(b: &[u8], p: usize) -> (r: Option<(Option<bool>, usize)>)
    ensures
        match r {
            Some((o, q)) => get_opt_bool(b@, p as int) == Some((o, q as int)),
            None => get_opt_bool(b@, p as int) is None,
        },
{
    let (present, q) = read_bool(b, p)?;
    let (v, r) = read_bool(b, q)?;
    Some((if present { Some(v) } else { None }, r))
}

// ---------------------------------------------------------------------------
// Counted lists
// ---------------------------------------------------------------------------

/// The encodings of the items, one after another.
pub open spec fn put_all<A>(xs: Seq<A>, f: spec_fn(A) -> Seq<u8>) -> Seq<u8>
    decreases xs.len(),
{
    if xs.len() == 0 {
        Seq::empty()
    } else {
        put_all(xs.drop_last(), f) + f(xs.last())
    }
}

/// A list: its item count as a `u32`, then its items.
pub open spec fn put_list<A>(xs: Seq<A>, f: spec_fn(A) -> Seq<u8>) -> Seq<u8> {
    le32(xs.len() as u32) + put_all(xs, f)
}

/// Reads `n` items one after another.
pub open spec fn get_all<A>(
    b: Seq<u8>,
    p: int,
    n: nat,
    g: spec_fn(Seq<u8>, int) -> Option<(A, int)>,
) -> Option<(Seq<A>, int)>
    decreases n,
{
    if n == 0 {
        Some((Seq::empty(), p))
    } else {
        match get_all(b, p, (n - 1) as nat, g) {
            Some((xs, q)) => match g(b, q) {
                Some((x, r)) => Some((xs.push(x), r)),
                None => None,
            },
            None => None,
        }
    }
}

/// Reads a counted list.
pub open spec fn get_list<A>(b: Seq<u8>, p: int, g: spec_fn(Seq<u8>, int) -> Option<(A, int)>) -> Option<
    (Seq<A>, int),
> {
    if 0 <= p && p + 4 <= b.len() {
        get_all(b, p + 4, u32_at(b, p) as nat, g)
    } else {
        None
    }
}

/// `g` reads back every item that `f` wrote, wherever it occurs in `b`.
pub open spec fn reads_back<A>(
    b: Seq<u8>,
    f: spec_fn(A) -> Seq<u8>,
    g: spec_fn(Seq<u8>, int) -> Option<(A, int)>,
) -> bool {
    forall|q: int, x: A|
        #![trigger contains_at(b, q, f(x))]
        contains_at(b, q, f(x)) && f(x).len() <= max_len() ==> g(b, q) == Some((x, q + f(x).len()))
}

/// Every item is written as at least one byte.
pub open spec fn nonempty_items<A>(f: spec_fn(A) -> Seq<u8>) -> bool {
    forall|x: A| #![trigger f(x)] f(x).len() >= 1
}

pub proof fn lemma_put_all_len<A>(xs: Seq<A>, f: spec_fn(A) -> Seq<u8>)
    requires
        nonempty_items(f),
    ensures
        put_all(xs, f).len() >= xs.len(),
    decreases xs.len(),
{
    if xs.len() > 0 {
        lemma_put_all_len(xs.drop_last(), f);
        assert(f(xs.last()).len() >= 1);
    }
}

pub proof fn lemma_get_all<A>(
    b: Seq<u8>,
    p: int,
    xs: Seq<A>,
    f: spec_fn(A) -> Seq<u8>,
    g: spec_fn(Seq<u8>, int) -> Option<(A, int)>,
)
    requires
        contains_at(b, p, put_all(xs, f)),
        put_all(xs, f).len() <= max_len(),
        reads_back(b, f, g),
    ensures
        get_all(b, p, xs.len(), g) == Some((xs, p + put_all(xs, f).len())),
    decreases xs.len(),
{
    if xs.len() > 0 {
        let init = xs.drop_last();
        lemma_split(b, p, put_all(init, f), f(xs.last()));
        lemma_get_all(b, p, init, f, g);
        assert(contains_at(b, p + put_all(init, f).len(), f(xs.last())));
        assert(init.push(xs.last()) =~= xs);
    }
}

pub proof fn lemma_get_list<A>(
    b: Seq<u8>,
    p: int,
    xs: Seq<A>,
    f: spec_fn(A) -> Seq<u8>,
    g: spec_fn(Seq<u8>, int) -> Option<(A, int)>,
)
    requires
        contains_at(b, p, put_list(xs, f)),
        put_list(xs, f).len() <= max_len(),
        reads_back(b, f, g),
        nonempty_items(f),
    ensures
        get_list(b, p, g) == Some((xs, p + put_list(xs, f).len())),
{
    reveal(contains_at);
    lemma_put_all_len(xs, f);
    lemma_split(b, p, le32(xs.len() as u32), put_all(xs, f));
    lemma_u32_at(b, p, xs.len() as u32);
    lemma_get_all(b, p + 4, xs, f, g);
}

} // verus!
