//! Quoting process arguments into one Windows command line (UTF-16), so that
//! the standard Windows argument parser gives each argument back whole.

use vstd::prelude::*;

verus! {

/// `"`.
pub const QUOTE: u16 = 34;

/// `\`.
pub const BACKSLASH: u16 = 92;

/// The diagnostic for an argument holding a NUL character.
pub open spec fn nul_message() -> Seq<char> {
    "Windows paths and arguments cannot contain NUL characters"@
}

/// `n` backslashes.
pub open spec fn backslashes(n: nat) -> Seq<u16> {
    Seq::new(n, |i: int| BACKSLASH)
}

/// Whether an argument needs quotes: it is empty, or holds a space, a tab or
/// a quote.
pub open spec fn needs_quotes(value: Seq<u16>) -> bool {
    value.len() == 0 || exists|i: int| 0 <= i < value.len() && (value[i] == 9 || value[i] == 32 || value[i] == QUOTE)
}

/// The quoted body of an argument after a prefix: what is written so far,
/// and the run of backslashes not yet written.
pub open spec fn quote_state(value: Seq<u16>) -> (Seq<u16>, nat)
    decreases value.len(),
{
    if value.len() == 0 {
        (Seq::empty(), 0)
    } else {
        let (out, slashes) = quote_state(value.drop_last());
        let c = value.last();
        if c == BACKSLASH {
            (out, slashes + 1)
        } else if c == QUOTE {
            (out + backslashes(slashes * 2 + 1) + seq![QUOTE], 0)
        } else {
            (out + backslashes(slashes) + seq![c], 0)
        }
    }
}

/// An argument as it stands in a command line: unchanged when it needs no
/// quotes; else in quotes, with each quote escaped and the backslashes before
/// a quote (or before the closing quote) doubled.
pub open spec fn quoted(value: Seq<u16>) -> Seq<u16> {
    if !needs_quotes(value) {
        value
    } else {
        let (out, slashes) = quote_state(value);
        seq![QUOTE] + out + backslashes(slashes * 2) + seq![QUOTE]
    }
}

fn push_backslashes(output: &mut Vec<u16>, n: usize)
    ensures
        final(output)@ == old(output)@ + backslashes(n as nat),
{
    let ghost start = output@;
    for i in 0..n
        invariant
            output@ == start + backslashes(i as nat),
    {
        output.push(BACKSLASH);
        assert(backslashes((i + 1) as nat) =~= backslashes(i as nat).push(BACKSLASH));
    }
}

/// Appends one argument, quoted as needed; an argument holding a NUL
/// character is refused and nothing is appended.
pub fn append_quoted_argument(output: &mut Vec<u16>, value: &Vec<u16>) -> (r: Result<(), String>)
    requires
        2 * value@.len() + 2 <= usize::MAX,
    ensures
        value@.contains(0u16) ==> (r matches Err(m) && m@ == nul_message() && final(output)@ == old(output)@),
        !value@.contains(0u16) ==> (r is Ok && final(output)@ == old(output)@ + quoted(value@)),
{
    let n = value.len();
    let mut plain = n > 0;
    for i in 0..n
        invariant
            n == value@.len(),
            forall|k: int| 0 <= k < i ==> value@[k] != 0,
            plain == (n > 0 && forall|k: int| 0 <= k < i ==> !(value@[k] == 9 || value@[k] == 32 || value@[k] == QUOTE)),
    {
        let c = value[i];
        if c == 0 {
            assert(value@[i as int] == 0u16);
            return Err(String::from_str("Windows paths and arguments cannot contain NUL characters"));
        }
        if c == 9 || c == 32 || c == QUOTE {
            plain = false;
        }
    }
    assert(!value@.contains(0u16));
    if plain {
        let ghost start = output@;
        for i in 0..n
            invariant
                n == value@.len(),
                output@ == start + value@.take(i as int),
        {
            output.push(value[i]);
            assert(value@.take(i + 1) =~= value@.take(i as int).push(value@[i as int]));
        }
        assert(value@.take(n as int) =~= value@);
        return Ok(());
    }
    let ghost start = output@;
    output.push(QUOTE);
    let mut slashes: usize = 0;
    for i in 0..n
        invariant
            n == value@.len(),
            2 * n + 2 <= usize::MAX,
            slashes <= i,
            quote_state(value@.take(i as int)).1 == slashes,
            output@ == start + seq![QUOTE] + quote_state(value@.take(i as int)).0,
    {
        proof {
            assert(value@.take(i + 1).drop_last() =~= value@.take(i as int));
            assert(value@.take(i + 1).last() == value@[i as int]);
        }
        let c = value[i];
        if c == BACKSLASH {
            slashes = slashes + 1;
        } else if c == QUOTE {
            push_backslashes(output, slashes * 2 + 1);
            output.push(QUOTE);
            slashes = 0;
        } else {
            push_backslashes(output, slashes);
            output.push(c);
            slashes = 0;
        }
    }
    assert(value@.take(n as int) =~= value@);
    push_backslashes(output, slashes * 2);
    output.push(QUOTE);
    Ok(())
}

/// The arguments separated by single spaces.
pub open spec fn joined(arguments: Seq<Seq<u16>>) -> Seq<u16>
    decreases arguments.len(),
{
    if arguments.len() == 0 {
        Seq::empty()
    } else if arguments.len() == 1 {
        quoted(arguments[0])
    } else {
        joined(arguments.drop_last()) + seq![32u16] + quoted(arguments.last())
    }
}

/// Whether every argument is free of NUL characters.
pub open spec fn nul_free(arguments: Seq<Vec<u16>>) -> bool {
    forall|i: int| 0 <= i < arguments.len() ==> !(#[trigger] arguments[i])@.contains(0u16)
}

/// The command line of a list of arguments: each quoted as needed, separated
/// by spaces, ended by a NUL; refused when an argument holds a NUL.
pub fn command_line(arguments: &Vec<Vec<u16>>) -> (r: Result<Vec<u16>, String>)
    requires
        forall|i: int| 0 <= i < arguments@.len() ==> 2 * (#[trigger] arguments@[i])@.len() + 2 <= usize::MAX,
    ensures
        nul_free(arguments@) ==> (r matches Ok(v) && v@ == joined(arguments@.map_values(|a: Vec<u16>| a@)) + seq![0u16]),
        !nul_free(arguments@) ==> (r matches Err(m) && m@ == nul_message()),
{
    let ghost views = arguments@.map_values(|a: Vec<u16>| a@);
    let mut result: Vec<u16> = Vec::new();
    let n = arguments.len();
    for i in 0..n
        invariant
            n == arguments@.len(),
            views == arguments@.map_values(|a: Vec<u16>| a@),
            forall|k: int| 0 <= k < n ==> 2 * (#[trigger] arguments@[k])@.len() + 2 <= usize::MAX,
            nul_free(arguments@.take(i as int)),
            result@ == joined(views.take(i as int)),
    {
        proof {
            assert(views.take(i + 1).drop_last() =~= views.take(i as int));
            assert(views.take(i + 1).last() == arguments@[i as int]@);
        }
        if i != 0 {
            result.push(32);
        }
        match append_quoted_argument(&mut result, &arguments[i]) {
            Ok(()) => {},
            Err(m) => {
                assert(!nul_free(arguments@));
                return Err(m);
            },
        }
        proof {
            assert(arguments@.take(i + 1) =~= arguments@.take(i as int).push(arguments@[i as int]));
            if i == 0 {
                assert(views.take(1) =~= seq![arguments@[0]@]);
            }
        }
    }
    assert(arguments@.take(n as int) =~= arguments@);
    assert(views.take(n as int) =~= views);
    result.push(0);
    Ok(result)
}

/// A path or argument as a NUL-terminated UTF-16 string; one that holds a
/// NUL is refused.
pub fn wide_null(units: &Vec<u16>) -> (r: Result<Vec<u16>, String>)
    ensures
        !units@.contains(0u16) ==> (r matches Ok(v) && v@ == units@.push(0u16)),
        units@.contains(0u16) ==> (r matches Err(m) && m@ == nul_message()),
{
    let mut out: Vec<u16> = Vec::new();
    let n = units.len();
    for i in 0..n
        invariant
            n == units@.len(),
            out@ == units@.take(i as int),
            forall|k: int| 0 <= k < i ==> units@[k] != 0u16,
    {
        if units[i] == 0 {
            return Err(String::from_str("Windows paths and arguments cannot contain NUL characters"));
        }
        out.push(units[i]);
        proof {
            assert(units@.take(i + 1) =~= units@.take(i as int).push(units@[i as int]));
        }
    }
    proof {
        assert(units@.take(n as int) =~= units@);
        assert(!units@.contains(0u16));
    }
    out.push(0);
    Ok(out)
}

} // verus!
