//! Values with a byte encoding, and counted lists of them.

use vstd::prelude::*;

use crate::wire::{
    contains_at, get_all, get_list, lemma_get_list, lemma_put_all_len, max_len, put_all, put_list, u32_at, read_u32,
    write_u32,
};

verus! {

/// A value with a byte encoding that reads back to its view.
pub trait Codec: Sized + View {
    /// The bytes of a value.
    spec fn encoding(v: Self::V) -> Seq<u8>;

    /// Reads a value at `p` of `b`, with the position after it.
    spec fn decoding(b: Seq<u8>, p: int) -> Option<(Self::V, int)>;

    /// Appends the bytes of `self`.
    fn write(&self, out: &mut Vec<u8>)
        requires
            Self::encoding(self@).len() <= max_len(),
        ensures
            final(out)@ == old(out)@ + Self::encoding(self@),
    ;

    /// Reads a value at `p`.
    fn read(b: &[u8], p: usize) -> (r: Option<(Self, usize)>)
        ensures
            match r {
                Some((x, q)) => Self::decoding(b@, p as int) == Some((x@, q as int)),
                None => Self::decoding(b@, p as int) is None,
            },
    ;

    /// Reading where a value was written gives the value back.
    proof fn lemma_reads_back(b: Seq<u8>, p: int, v: Self::V)
        requires
            contains_at(b, p, Self::encoding(v)),
            Self::encoding(v).len() <= max_len(),
        ensures
            Self::decoding(b, p) == Some((v, p + Self::encoding(v).len())),
    ;

    /// No value is written as zero bytes.
    proof fn lemma_nonempty(v: Self::V)
        ensures
            Self::encoding(v).len() >= 1,
    ;
}

/// The views of the items of a vector.
pub open spec fn views<T: View>(xs: Seq<T>) -> Seq<T::V> {
    xs.map_values(|x: T| x@)
}

/// The encoder of `T` as a function value.
pub open spec fn enc_fn<T: Codec>() -> spec_fn(T::V) -> Seq<u8> {
    |v: T::V| T::encoding(v)
}

/// The decoder of `T` as a function value.
pub open spec fn dec_fn<T: Codec>() -> spec_fn(Seq<u8>, int) -> Option<(T::V, int)> {
    |b: Seq<u8>, q: int| T::decoding(b, q)
}

/// The encoding of a list of values.
pub open spec fn put_items<T: Codec>(vs: Seq<T::V>) -> Seq<u8> {
    put_list(vs, enc_fn::<T>())
}

/// Reads a list of values.
pub open spec fn get_items<T: Codec>(b: Seq<u8>, p: int) -> Option<(Seq<T::V>, int)> {
    get_list(b, p, dec_fn::<T>())
}

pub proof fn lemma_get_items<T: Codec>(b: Seq<u8>, p: int, vs: Seq<T::V>)
    requires
        contains_at(b, p, put_items::<T>(vs)),
        put_items::<T>(vs).len() <= max_len(),
    ensures
        get_items::<T>(b, p) == Some((vs, p + put_items::<T>(vs).len())),
{
    let f = enc_fn::<T>();
    let g = dec_fn::<T>();
    assert forall|q: int, x: T::V|
        #![trigger contains_at(b, q, f(x))]
        contains_at(b, q, f(x)) && f(x).len() <= max_len() implies g(b, q) == Some(
        (x, q + f(x).len()),
    ) by {
        T::lemma_reads_back(b, q, x);
    }
    assert forall|x: T::V| #![trigger f(x)] f(x).len() >= 1 by {
        T::lemma_nonempty(x);
    }
    lemma_get_list(b, p, vs, f, g);
}

/// Appends a counted list of values.
pub fn write_items<T: Codec>(out: &mut Vec<u8>, xs: &Vec<T>)
    requires
        put_items::<T>(views(xs@)).len() <= max_len(),
    ensures
        final(out)@ == old(out)@ + put_items::<T>(views(xs@)),
{
    let ghost f = enc_fn::<T>();
    let n = xs.len();
    proof {
        assert forall|x: T::V| #![trigger f(x)] f(x).len() >= 1 by {
            T::lemma_nonempty(x);
        }
        lemma_put_all_len(views(xs@), f);
    }
    write_u32(out, n as u32);
    let ghost start = out@;
    for i in 0..n
        invariant
            n == xs@.len(),
            f == enc_fn::<T>(),
            put_list(views(xs@), f).len() <= max_len(),
            out@ == start + put_all(views(xs@).take(i as int), f),
    {
        let ghost before = out@;
        proof {
            let vs = views(xs@);
            assert(vs.take(i + 1).drop_last() =~= vs.take(i as int));
            lemma_put_all_prefix(vs, f, i + 1);
            assert(vs[i as int] == xs@[i as int]@);
            assert(f(vs[i as int]) == T::encoding(xs@[i as int]@));
        }
        xs[i].write(out);
        proof {
            let vs = views(xs@);
            assert(vs.take(i + 1).drop_last() =~= vs.take(i as int));
            assert(vs.take(i + 1).last() == vs[i as int]);
            assert(put_all(vs.take(i + 1), f) == put_all(vs.take(i as int), f) + f(vs[i as int]));
            assert(out@ =~= start + put_all(vs.take(i + 1), f));
        }
    }
    proof {
        let vs = views(xs@);
        assert(vs.take(n as int) =~= vs);
    }
}

/// The encoding of a prefix is no longer than the encoding of the whole list.
pub proof fn lemma_put_all_prefix<A>(xs: Seq<A>, f: spec_fn(A) -> Seq<u8>, k: int)
    requires
        0 <= k <= xs.len(),
    ensures
        put_all(xs.take(k), f).len() <= put_all(xs, f).len(),
        k >= 1 ==> put_all(xs.take(k - 1), f).len() + f(xs[k - 1]).len() <= put_all(xs, f).len(),
    decreases xs.len(),
{
    if k < xs.len() {
        assert(xs.drop_last().take(k) =~= xs.take(k));
        if k >= 1 {
            assert(xs.drop_last().take(k - 1) =~= xs.take(k - 1));
        }
        lemma_put_all_prefix(xs.drop_last(), f, k);
    } else if k >= 1 {
        assert(xs.take(k) =~= xs);
        assert(xs.take(k).drop_last() =~= xs.take(k - 1));
    }
}

/// Reads a counted list of values.
pub fn read_items<T: Codec>(b: &[u8], p: usize) -> (r: Option<(Vec<T>, usize)>)
    ensures
        match r {
            Some((xs, q)) => get_items::<T>(b@, p as int) == Some((views(xs@), q as int)),
            None => get_items::<T>(b@, p as int) is None,
        },
{
    let ghost g = dec_fn::<T>();
    let len = b.len();
    if p > len || len - p < 4 {
        return None;
    }
    let n = read_u32(b, p);
    let mut q = p + 4;
    let mut xs: Vec<T> = Vec::new();
    for i in 0..n
        invariant
            len == b@.len(),
            g == dec_fn::<T>(),
            0 <= p,
            p + 4 <= len,
            n as int == u32_at(b@, p as int),
            get_all(b@, p + 4, i as nat, g) == Some((views(xs@), q as int)),
    {
        match T::read(b, q) {
            None => {
                proof {
                    assert(g(b@, q as int) == T::decoding(b@, q as int));
                    lemma_get_all_stops(b@, p + 4, i as nat, n as nat, g);
                }
                return None;
            },
            Some((x, r)) => {
                proof {
                    assert(g(b@, q as int) == T::decoding(b@, q as int));
                    assert(views(xs@.push(x)) =~= views(xs@).push(x@));
                }
                xs.push(x);
                q = r;
            },
        }
    }
    Some((xs, q))
}

/// Once an item fails to read, the whole list fails to read.
pub proof fn lemma_get_all_stops<A>(
    b: Seq<u8>,
    p: int,
    i: nat,
    n: nat,
    g: spec_fn(Seq<u8>, int) -> Option<(A, int)>,
)
    requires
        i < n,
        get_all(b, p, i, g) matches Some((xs, q)) && g(b, q) is None,
    ensures
        get_all(b, p, n, g) is None,
    decreases n - i,
{
    if i + 1 < n {
        lemma_get_all_none(b, p, i + 1, n, g);
    }
}

/// A list that fails to read stays failed when more items are asked for.
pub proof fn lemma_get_all_none<A>(
    b: Seq<u8>,
    p: int,
    i: nat,
    n: nat,
    g: spec_fn(Seq<u8>, int) -> Option<(A, int)>,
)
    requires
        i <= n,
        get_all(b, p, i, g) is None,
    ensures
        get_all(b, p, n, g) is None,
    decreases n - i,
{
    if i < n {
        lemma_get_all_none(b, p, i + 1, n, g);
    }
}

} // verus!
