//! Human-readable rendering of daemon responses for the command line.

use vstd::prelude::*;

use crate::text;
use crate::plan::{join, texts};
use crate::text::{append, dec, decimal, owned};

verus! {

/// Width of human-readable output in columns.
pub const HUMAN_OUTPUT_WIDTH: usize = 88;

// ---------------------------------------------------------------------------
// Word wrapping
// ---------------------------------------------------------------------------

/// State of the word wrapper after a prefix of the text: the finished lines,
/// the line being filled, the word being read, and whether the current source
/// line has any character.
pub struct WrapState {
    pub out: Seq<Seq<char>>,
    pub line: Seq<char>,
    pub word: Seq<char>,
    pub seen: bool,
}

/// Splits a word into chunks of `width` characters: the finished chunks
/// after `out`, and the last, partial chunk.
pub open spec fn chunk_word(word: Seq<char>, width: nat, out: Seq<Seq<char>>) -> (Seq<Seq<char>>, Seq<char>)
    decreases word.len(),
{
    if word.len() == 0 {
        (out, Seq::empty())
    } else {
        let (o, chunk) = chunk_word(word.drop_last(), width, out);
        if chunk.len() == width {
            (o.push(chunk), seq![word.last()])
        } else {
            (o, chunk.push(word.last()))
        }
    }
}

/// Adds a word to the line being filled: after a space when it fits in
/// `width`, else on new lines, split into chunks when it is longer than a line.
pub open spec fn commit(out: Seq<Seq<char>>, line: Seq<char>, word: Seq<char>, width: nat) -> (Seq<Seq<char>>, Seq<char>) {
    if word.len() == 0 {
        (out, line)
    } else {
        let sep: nat = if line.len() > 0 {
            1
        } else {
            0
        };
        if line.len() + sep + word.len() <= width {
            (out, if sep == 1 {
                line + seq![' '] + word
            } else {
                line + word
            })
        } else {
            chunk_word(word, width, if line.len() > 0 {
                out.push(line)
            } else {
                out
            })
        }
    }
}

/// Ends a source line: its last word is added, and the line (or an empty
/// line for an empty source line) is finished.
pub open spec fn end_line(st: WrapState, width: nat) -> Seq<Seq<char>> {
    let (o, l) = commit(st.out, st.line, st.word, width);
    if l.len() > 0 {
        o.push(l)
    } else if !st.seen {
        o.push(Seq::empty())
    } else {
        o
    }
}

/// One character of the text read by the wrapper. Carriage returns are
/// dropped, newlines end source lines, and other whitespace ends words.
pub open spec fn wrap_step(st: WrapState, c: char, width: nat) -> WrapState {
    if c == '\r' {
        st
    } else if c == '\n' {
        WrapState { out: end_line(st, width), line: Seq::empty(), word: Seq::empty(), seen: false }
    } else if text::is_whitespace(c) {
        let (o, l) = commit(st.out, st.line, st.word, width);
        WrapState { out: o, line: l, word: Seq::empty(), seen: true }
    } else {
        WrapState { out: st.out, line: st.line, word: st.word.push(c), seen: true }
    }
}

/// The wrapper state after reading `s`.
pub open spec fn wrap_state(s: Seq<char>, width: nat) -> WrapState
    decreases s.len(),
{
    if s.len() == 0 {
        WrapState { out: Seq::empty(), line: Seq::empty(), word: Seq::empty(), seen: false }
    } else {
        wrap_step(wrap_state(s.drop_last(), width), s.last(), width)
    }
}

/// The lines of `s` wrapped to `width` columns: words are kept whole where
/// they fit, long words are split, empty source lines are kept, and a text
/// without any line renders as `-`.
pub open spec fn wrapped(s: Seq<char>, width: nat) -> Seq<Seq<char>> {
    let o = end_line(wrap_state(s, width), width);
    if o.len() == 0 {
        seq!["-"@]
    } else {
        o
    }
}

/// Every line has at most `width` characters.
pub open spec fn lines_fit(lines: Seq<Seq<char>>, width: nat) -> bool {
    forall|i: int| 0 <= i < lines.len() ==> #[trigger] lines[i].len() <= width
}

proof fn lemma_chunk_word_fits(word: Seq<char>, width: nat, out: Seq<Seq<char>>)
    requires
        width > 0,
        lines_fit(out, width),
    ensures
        lines_fit(chunk_word(word, width, out).0, width),
        chunk_word(word, width, out).1.len() <= width,
    decreases word.len(),
{
    if word.len() > 0 {
        lemma_chunk_word_fits(word.drop_last(), width, out);
        let (o, chunk) = chunk_word(word.drop_last(), width, out);
        if chunk.len() == width {
            assert(forall|i: int| 0 <= i < o.len() ==> o.push(chunk)[i] == o[i]);
        }
    }
}

proof fn lemma_wrap_state_fits(s: Seq<char>, width: nat)
    requires
        width > 0,
    ensures
        lines_fit(wrap_state(s, width).out, width),
        wrap_state(s, width).line.len() <= width,
        lines_fit(end_line(wrap_state(s, width), width), width),
    decreases s.len(),
{
    if s.len() > 0 {
        lemma_wrap_state_fits(s.drop_last(), width);
        let prev = wrap_state(s.drop_last(), width);
        lemma_commit_fits(prev.out, prev.line, prev.word, width);
    }
    let st = wrap_state(s, width);
    lemma_commit_fits(st.out, st.line, st.word, width);
    let (o, l) = commit(st.out, st.line, st.word, width);
    assert(forall|i: int| 0 <= i < o.len() ==> o.push(l)[i] == o[i]);
    assert(forall|i: int| 0 <= i < o.len() ==> o.push(Seq::<char>::empty())[i] == o[i]);
}

proof fn lemma_commit_fits(out: Seq<Seq<char>>, line: Seq<char>, word: Seq<char>, width: nat)
    requires
        width > 0,
        lines_fit(out, width),
        line.len() <= width,
    ensures
        lines_fit(commit(out, line, word, width).0, width),
        commit(out, line, word, width).1.len() <= width,
{
    if word.len() > 0 {
        let sep: nat = if line.len() > 0 { 1 } else { 0 };
        if line.len() + sep + word.len() > width {
            let o = if line.len() > 0 { out.push(line) } else { out };
            assert(forall|i: int| 0 <= i < out.len() ==> out.push(line)[i] == out[i]);
            lemma_chunk_word_fits(word, width, o);
        }
    }
}

/// Wrapping to a positive width never gives a line wider than that width.
pub proof fn lemma_wrapped_lines_fit(s: Seq<char>, width: nat)
    requires
        width > 0,
    ensures
        lines_fit(wrapped(s, width), width),
{
    lemma_wrap_state_fits(s, width);
    reveal_strlit("-");
}

fn push_string(out: &mut Vec<String>, chars: &Vec<char>)
    ensures
        texts(final(out)@) == texts(old(out)@).push(chars@),
{
    let s = text::string_of(chars);
    let ghost v = s@;
    out.push(s);
    assert(texts(out@) =~= texts(old(out)@).push(v));
}

fn chunk_into(out: &mut Vec<String>, word: &Vec<char>, width: usize) -> (chunk: Vec<char>)
    ensures
        (texts(final(out)@), chunk@) == chunk_word(word@, width as nat, texts(old(out)@)),
{
    let mut chunk: Vec<char> = Vec::new();
    let n = word.len();
    for i in 0..n
        invariant
            n == word@.len(),
            (texts(out@), chunk@) == chunk_word(word@.take(i as int), width as nat, texts(old(out)@)),
    {
        proof {
            assert(word@.take(i + 1).drop_last() =~= word@.take(i as int));
            assert(word@.take(i + 1).last() == word@[i as int]);
        }
        if chunk.len() == width {
            push_string(out, &chunk);
            chunk = Vec::new();
            chunk.push(word[i]);
            assert(chunk@ =~= seq![word@[i as int]]);
        } else {
            chunk.push(word[i]);
        }
    }
    proof {
        assert(word@.take(n as int) =~= word@);
    }
    chunk
}

fn commit_word(out: &mut Vec<String>, line: &mut Vec<char>, word: &Vec<char>, width: usize)
    ensures
        (texts(final(out)@), final(line)@) == commit(texts(old(out)@), old(line)@, word@, width as nat),
{
    if word.len() == 0 {
        return;
    }
    let sep: usize = if line.len() > 0 {
        1
    } else {
        0
    };
    if (line.len() as u128) + (sep as u128) + (word.len() as u128) <= width as u128 {
        if sep == 1 {
            line.push(' ');
        }
        let n = word.len();
        let ghost start = line@;
        for i in 0..n
            invariant
                n == word@.len(),
                line@ == start + word@.take(i as int),
        {
            line.push(word[i]);
            assert(word@.take(i + 1) =~= word@.take(i as int).push(word@[i as int]));
        }
        proof {
            assert(word@.take(n as int) =~= word@);
            if sep == 1 {
                assert(line@ =~= old(line)@ + seq![' '] + word@);
            } else {
                assert(line@ =~= old(line)@ + word@);
            }
        }
    } else {
        if line.len() > 0 {
            push_string(out, line);
        }
        let chunk = chunk_into(out, word, width);
        *line = chunk;
    }
}

fn end_source_line(out: &mut Vec<String>, line: &Vec<char>, word: &Vec<char>, seen: bool, width: usize)
    ensures
        texts(final(out)@) == end_line(
            WrapState { out: texts(old(out)@), line: line@, word: word@, seen },
            width as nat,
        ),
{
    let mut l = line.clone();
    proof {
        assert(l@ == line@);
    }
    commit_word(out, &mut l, word, width);
    if l.len() > 0 {
        push_string(out, &l);
    } else if !seen {
        let empty: Vec<char> = Vec::new();
        push_string(out, &empty);
        assert(empty@ =~= Seq::<char>::empty());
    }
}

/// Wraps text to `width` columns.
pub fn wrap_text(value: &str, width: usize) -> (r: Vec<String>)
    ensures
        texts(r@) == wrapped(value@, width as nat),
{
    let chars = text::chars_of(value);
    let n = chars.len();
    let mut out: Vec<String> = Vec::new();
    let mut line: Vec<char> = Vec::new();
    let mut word: Vec<char> = Vec::new();
    let mut seen = false;
    proof {
        assert(texts(out@) =~= Seq::<Seq<char>>::empty());
        assert(line@ =~= Seq::<char>::empty());
        assert(word@ =~= Seq::<char>::empty());
        assert(value@.take(0) =~= Seq::<char>::empty());
    }
    for i in 0..n
        invariant
            n == chars@.len(),
            chars@ == value@,
            wrap_state(value@.take(i as int), width as nat) == (WrapState {
                out: texts(out@),
                line: line@,
                word: word@,
                seen,
            }),
    {
        let c = chars[i];
        proof {
            assert(value@.take(i + 1).drop_last() =~= value@.take(i as int));
            assert(value@.take(i + 1).last() == c);
        }
        if c == '\r' {
        } else if c == '\n' {
            end_source_line(&mut out, &line, &word, seen, width);
            line = Vec::new();
            word = Vec::new();
            seen = false;
            proof {
                assert(line@ =~= Seq::<char>::empty());
                assert(word@ =~= Seq::<char>::empty());
            }
        } else if text::char_is_whitespace(c) {
            commit_word(&mut out, &mut line, &word, width);
            word = Vec::new();
            seen = true;
            proof {
                assert(word@ =~= Seq::<char>::empty());
            }
        } else {
            word.push(c);
            seen = true;
        }
    }
    proof {
        assert(value@.take(n as int) =~= value@);
    }
    end_source_line(&mut out, &line, &word, seen, width);
    if out.len() == 0 {
        out.push(owned("-"));
        proof {
            assert(texts(out@) =~= seq!["-"@]);
        }
    }
    out
}

// ---------------------------------------------------------------------------
// Key-value blocks, records and lists
// ---------------------------------------------------------------------------

/// `n` spaces.
pub open spec fn spaces(n: nat) -> Seq<char> {
    Seq::new(n, |i: int| ' ')
}

/// Text padded with spaces to at least `width` characters.
pub open spec fn pad(s: Seq<char>, width: nat) -> Seq<char> {
    if s.len() < width {
        s + spaces((width - s.len()) as nat)
    } else {
        s
    }
}

/// Width of wrapped values after a prefix of `prefix_width` columns: what is
/// left of the output width, at least 20.
pub open spec fn line_width(prefix_width: nat) -> nat {
    if prefix_width + 20 >= HUMAN_OUTPUT_WIDTH {
        20
    } else {
        (HUMAN_OUTPUT_WIDTH - prefix_width) as nat
    }
}

/// Lines, the first after `first` and the others after `cont`.
pub open spec fn prefixed(lines: Seq<Seq<char>>, first: Seq<char>, cont: Seq<char>) -> Seq<char>
    decreases lines.len(),
{
    if lines.len() == 0 {
        Seq::empty()
    } else {
        prefixed(lines.drop_last(), first, cont) + (if lines.len() == 1 {
            first
        } else {
            cont
        }) + lines.last()
    }
}

/// A value wrapped to the width left after its prefix.
pub open spec fn wrapped_value(value: Seq<char>, first: Seq<char>, cont: Seq<char>, prefix_width: nat) -> Seq<char> {
    prefixed(wrapped(value, line_width(prefix_width)), first, cont)
}

pub(crate) fn push_wrapped_lines(output: &mut String, value: &str, first: &str, cont: &str, prefix_width: u128)
    ensures
        final(output)@ == old(output)@ + wrapped_value(value@, first@, cont@, prefix_width as nat),
{
    let w: usize = if prefix_width >= 68 {
        20
    } else {
        (88 - prefix_width) as usize
    };
    let lines = wrap_text(value, w);
    let ghost start = output@;
    let n = lines.len();
    for i in 0..n
        invariant
            n == lines@.len(),
            output@ == start + prefixed(texts(lines@).take(i as int), first@, cont@),
    {
        proof {
            assert(texts(lines@).take(i + 1).drop_last() =~= texts(lines@).take(i as int));
            assert(texts(lines@).take(i + 1).last() == lines@[i as int]@);
        }
        if i == 0 {
            append(output, first);
        } else {
            append(output, cont);
        }
        append(output, lines[i].as_str());
    }
    proof {
        assert(texts(lines@).take(n as int) =~= texts(lines@));
    }
}

/// The widest key.
pub open spec fn key_width(pairs: Seq<(Seq<char>, Seq<char>)>) -> nat
    decreases pairs.len(),
{
    if pairs.len() == 0 {
        0
    } else {
        let w = key_width(pairs.drop_last());
        if pairs.last().0.len() > w {
            pairs.last().0.len()
        } else {
            w
        }
    }
}

/// The key-value lines of a block, each value wrapped under its aligned key.
pub open spec fn pairs_text(pairs: Seq<(Seq<char>, Seq<char>)>, width: nat) -> Seq<char>
    decreases pairs.len(),
{
    if pairs.len() == 0 {
        Seq::empty()
    } else {
        pairs_text(pairs.drop_last(), width) + wrapped_value(
            pairs.last().1,
            "\n  "@ + pad(pairs.last().0, width) + "  "@,
            "\n  "@ + spaces(width) + "  "@,
            width + 4,
        )
    }
}

/// A titled block of aligned key-value lines.
pub open spec fn key_values_text(title: Seq<char>, pairs: Seq<(Seq<char>, Seq<char>)>) -> Seq<char> {
    title + pairs_text(pairs, key_width(pairs))
}

/// Views of key-value pairs.
pub open spec fn pair_texts(pairs: Seq<(String, String)>) -> Seq<(Seq<char>, Seq<char>)> {
    pairs.map_values(|p: (String, String)| (p.0@, p.1@))
}

pub(crate) fn padded(s: &str, width: usize) -> (r: String)
    ensures
        r@ == pad(s@, width as nat),
{
    let n = text::chars_of(s).len();
    let mut r = owned(s);
    if n < width {
        let ghost start = r@;
        for i in 0..(width - n)
            invariant
                r@ == start + spaces(i as nat),
        {
            text::push_char(&mut r, ' ');
            assert(spaces((i + 1) as nat) =~= spaces(i as nat).push(' '));
        }
    }
    r
}

/// Renders a titled block of aligned key-value lines.
pub fn key_values(title: &str, pairs: &Vec<(String, String)>) -> (r: String)
    ensures
        r@ == key_values_text(title@, pair_texts(pairs@)),
{
    let ghost ps = pair_texts(pairs@);
    let n = pairs.len();
    let mut width: usize = 0;
    for i in 0..n
        invariant
            n == pairs@.len(),
            ps == pair_texts(pairs@),
            width as nat == key_width(ps.take(i as int)),
    {
        proof {
            assert(ps.take(i + 1).drop_last() =~= ps.take(i as int));
            assert(ps.take(i + 1).last() == ps[i as int]);
        }
        let k = text::chars_of(pairs[i].0.as_str()).len();
        if k > width {
            width = k;
        }
    }
    proof {
        assert(ps.take(n as int) =~= ps);
    }
    let mut out = owned(title);
    let mut cont = owned("\n  ");
    let blank = padded("", width);
    proof {
        reveal_strlit("");
        assert(pad(""@, width as nat) =~= spaces(width as nat));
    }
    append(&mut cont, blank.as_str());
    append(&mut cont, "  ");
    for i in 0..n
        invariant
            n == pairs@.len(),
            ps == pair_texts(pairs@),
            width as nat == key_width(ps),
            cont@ == "\n  "@ + spaces(width as nat) + "  "@,
            out@ == title@ + pairs_text(ps.take(i as int), width as nat),
    {
        proof {
            assert(ps.take(i + 1).drop_last() =~= ps.take(i as int));
            assert(ps.take(i + 1).last() == ps[i as int]);
        }
        let mut first = owned("\n  ");
        let key = padded(pairs[i].0.as_str(), width);
        append(&mut first, key.as_str());
        append(&mut first, "  ");
        push_wrapped_lines(&mut out, pairs[i].1.as_str(), first.as_str(), cont.as_str(), width as u128 + 4);
        proof {
            assert(out@ =~= title@ + pairs_text(ps.take(i + 1), width as nat));
        }
    }
    proof {
        assert(ps.take(n as int) =~= ps);
    }
    out
}

/// A cell of a record title: line breaks become spaces.
pub open spec fn clean(s: Seq<char>) -> Seq<char> {
    s.map_values(|c: char| if c == '\r' || c == '\n' {
        ' '
    } else {
        c
    })
}

/// A titled record: the cleaned title wrapped to the output width less its
/// indentation, then its key-value lines.
pub open spec fn record_text(title: Seq<char>, pairs: Seq<(Seq<char>, Seq<char>)>) -> Seq<char> {
    key_values_text(join(wrapped(clean(title), (HUMAN_OUTPUT_WIDTH - 2) as nat), "\n"@), pairs)
}

pub(crate) fn clean_cell(s: &str) -> (r: String)
    ensures
        r@ == clean(s@),
{
    let chars = text::chars_of(s);
    let mut out = String::new();
    let n = chars.len();
    for i in 0..n
        invariant
            n == chars@.len(),
            chars@ == s@,
            out@ == clean(s@.take(i as int)),
    {
        let c = chars[i];
        text::push_char(&mut out, if c == '\r' || c == '\n' { ' ' } else { c });
        assert(clean(s@.take(i + 1)) =~= clean(s@.take(i as int)).push(if c == '\r' || c == '\n' { ' ' } else { c }));
    }
    assert(s@.take(n as int) =~= s@);
    out
}

pub(crate) fn join_lines(parts: &Vec<String>, sep: &str) -> (r: String)
    ensures
        r@ == join(texts(parts@), sep@),
{
    let n = parts.len();
    if n == 0 {
        return String::new();
    }
    let mut r = owned(parts[0].as_str());
    assert(texts(parts@).take(1) =~= seq![parts@[0]@]);
    for i in 1..n
        invariant
            n == parts@.len(),
            n >= 1,
            r@ == join(texts(parts@).take(i as int), sep@),
    {
        append(&mut r, sep);
        append(&mut r, parts[i].as_str());
        proof {
            let t = texts(parts@);
            assert(t.take(i + 1).drop_last() =~= t.take(i as int));
            assert(t.take(i + 1).last() == parts@[i as int]@);
        }
    }
    assert(texts(parts@).take(n as int) =~= texts(parts@));
    r
}

/// Renders a titled record.
pub fn record(title: &str, pairs: &Vec<(String, String)>) -> (r: String)
    ensures
        r@ == record_text(title@, pair_texts(pairs@)),
{
    let cleaned = clean_cell(title);
    let lines = wrap_text(cleaned.as_str(), 86);
    let t = join_lines(&lines, "\n");
    key_values(t.as_str(), pairs)
}

/// A line without one trailing carriage return.
pub open spec fn strip_cr(line: Seq<char>) -> Seq<char> {
    if line.len() > 0 && line.last() == '\r' {
        line.drop_last()
    } else {
        line
    }
}

/// The lines of a text read so far: those ended by a line feed (without the
/// line feed and one carriage return before it), and the unfinished one.
pub open spec fn lines_state(s: Seq<char>) -> (Seq<Seq<char>>, Seq<char>)
    decreases s.len(),
{
    if s.len() == 0 {
        (Seq::empty(), Seq::empty())
    } else {
        let (done, cur) = lines_state(s.drop_last());
        if s.last() == '\n' {
            (done.push(strip_cr(cur)), Seq::empty())
        } else {
            (done, cur.push(s.last()))
        }
    }
}

/// The lines of a text, as `str::lines` gives them: a final line feed ends
/// the last line rather than opening an empty one.
pub open spec fn text_lines(s: Seq<char>) -> Seq<Seq<char>> {
    let (done, cur) = lines_state(s);
    if cur.len() > 0 {
        done.push(cur)
    } else {
        done
    }
}

/// Lines joined by line feeds, each indented by two spaces.
pub open spec fn indented(lines: Seq<Seq<char>>) -> Seq<char> {
    join(lines.map_values(|l: Seq<char>| "  "@ + l), "\n"@)
}

pub open spec fn records_text(records: Seq<Seq<char>>) -> Seq<char>
    decreases records.len(),
{
    if records.len() == 0 {
        Seq::empty()
    } else {
        records_text(records.drop_last()) + "\n\n"@ + indented(text_lines(records.last()))
    }
}

proof fn lemma_indented_push(lines: Seq<Seq<char>>, line: Seq<char>)
    ensures
        indented(lines.push(line)) == indented(lines) + (if lines.len() > 0 {
            "\n"@
        } else {
            Seq::empty()
        }) + "  "@ + line,
{
    let f = |l: Seq<char>| "  "@ + l;
    assert(lines.push(line).map_values(f).drop_last() =~= lines.map_values(f));
    if lines.len() == 0 {
        assert(lines.push(line).map_values(f) =~= seq!["  "@ + line]);
    }
}

/// A titled list of records, or the title and a message when it is empty.
pub open spec fn record_list_text(title: Seq<char>, records: Seq<Seq<char>>, empty: Seq<char>) -> Seq<char> {
    if records.len() == 0 {
        title + "\n  "@ + empty
    } else {
        title + records_text(records)
    }
}

fn push_line(out: &mut String, line: &Vec<char>, first: bool, strip: bool)
    ensures
        final(out)@ == old(out)@ + (if first {
            Seq::empty()
        } else {
            "\n"@
        }) + "  "@ + (if strip {
            strip_cr(line@)
        } else {
            line@
        }),
{
    if !first {
        append(out, "\n");
    }
    append(out, "  ");
    let n = line.len();
    let m = if strip && n > 0 && line[n - 1] == '\r' { n - 1 } else { n };
    let ghost start = out@;
    for i in 0..m
        invariant
            m <= n == line@.len(),
            out@ == start + line@.take(i as int),
    {
        text::push_char(out, line[i]);
        assert(line@.take(i + 1) =~= line@.take(i as int).push(line@[i as int]));
    }
    assert(line@.take(m as int) =~= (if strip { strip_cr(line@) } else { line@ }));
}

fn indent_into(out: &mut String, r: &str)
    ensures
        final(out)@ == old(out)@ + indented(text_lines(r@)),
{
    let chars = text::chars_of(r);
    let n = chars.len();
    let ghost start = out@;
    let mut cur: Vec<char> = Vec::new();
    let mut count: usize = 0;
    assert(indented(Seq::<Seq<char>>::empty()) =~= Seq::<char>::empty());
    for i in 0..n
        invariant
            n == chars@.len(),
            chars@ == r@,
            count <= i,
            count == lines_state(r@.take(i as int)).0.len(),
            cur@ == lines_state(r@.take(i as int)).1,
            out@ == start + indented(lines_state(r@.take(i as int)).0),
    {
        proof {
            assert(r@.take(i + 1).drop_last() =~= r@.take(i as int));
            assert(r@.take(i + 1).last() == chars@[i as int]);
        }
        if chars[i] == '\n' {
            push_line(out, &cur, count == 0, true);
            proof {
                lemma_indented_push(lines_state(r@.take(i as int)).0, strip_cr(cur@));
            }
            count = count + 1;
            cur = Vec::new();
        } else {
            cur.push(chars[i]);
        }
    }
    assert(r@.take(n as int) =~= r@);
    if cur.len() > 0 {
        push_line(out, &cur, count == 0, false);
        proof {
            lemma_indented_push(lines_state(r@).0, cur@);
        }
    }
}

/// Renders a titled list of records.
pub fn record_list(title: &str, records: &Vec<String>, empty: &str) -> (r: String)
    ensures
        r@ == record_list_text(title@, texts(records@), empty@),
{
    let mut out = owned(title);
    let n = records.len();
    if n == 0 {
        append(&mut out, "\n  ");
        append(&mut out, empty);
        return out;
    }
    for i in 0..n
        invariant
            n == records@.len(),
            out@ == title@ + records_text(texts(records@).take(i as int)),
    {
        proof {
            assert(texts(records@).take(i + 1).drop_last() =~= texts(records@).take(i as int));
            assert(texts(records@).take(i + 1).last() == records@[i as int]@);
        }
        append(&mut out, "\n\n");
        indent_into(&mut out, records[i].as_str());
    }
    assert(texts(records@).take(n as int) =~= texts(records@));
    out
}

/// An optional value, or `-` when it is absent or empty.
pub open spec fn option_text(o: Option<Seq<char>>) -> Seq<char> {
    match o {
        Some(v) => if v.len() > 0 {
            v
        } else {
            "-"@
        },
        None => "-"@,
    }
}

pub(crate) fn option_string(o: &Option<String>) -> (r: String)
    ensures
        r@ == option_text(o.deep_view()),
{
    match o {
        Some(v) => if v.as_str().is_empty() {
            owned("-")
        } else {
            v.clone()
        },
        None => owned("-"),
    }
}

/// Text of one address with its prefix length.
pub open spec fn address_text(a: crate::model::IpAddressView) -> Seq<char> {
    a.address + "/"@ + dec(a.prefix_length as nat)
}

/// Addresses one per line, or `-`.
pub open spec fn addresses_text(addrs: Seq<crate::model::IpAddressView>) -> Seq<char> {
    if addrs.len() == 0 {
        "-"@
    } else {
        join(addrs.map_values(|a: crate::model::IpAddressView| address_text(a)), "\n"@)
    }
}

pub(crate) fn format_addresses(addrs: &Vec<crate::model::IpAddressInfo>) -> (r: String)
    ensures
        r@ == addresses_text(crate::codec::views(addrs@)),
{
    if addrs.len() == 0 {
        return owned("-");
    }
    let mut parts: Vec<String> = Vec::new();
    let n = addrs.len();
    let ghost f = |a: crate::model::IpAddressView| address_text(a);
    for i in 0..n
        invariant
            n == addrs@.len(),
            f == (|a: crate::model::IpAddressView| address_text(a)),
            texts(parts@) =~= crate::codec::views(addrs@).take(i as int).map_values(f),
    {
        let mut t = owned(addrs[i].address.as_str());
        append(&mut t, "/");
        let d = decimal(addrs[i].prefix_length as u64);
        append(&mut t, d.as_str());
        let ghost tv = t@;
        let ghost prev = texts(parts@);
        parts.push(t);
        proof {
            let vs = crate::codec::views(addrs@);
            assert(texts(parts@) =~= prev.push(tv));
            assert(vs[i as int] == addrs@[i as int]@);
            assert(f(vs[i as int]) == tv);
            assert(vs.take(i + 1).map_values(f) =~= vs.take(i as int).map_values(f).push(f(vs[i as int])));
        }
    }
    assert(crate::codec::views(addrs@).take(n as int) =~= crate::codec::views(addrs@));
    join_lines(&parts, "\n")
}

/// A duration in the largest units that are not zero.
pub open spec fn duration_text(ms: u64) -> Seq<char> {
    if ms < 1000 {
        dec(ms as nat) + " ms"@
    } else {
        let t = ms / 1000;
        let days = t / 86400;
        let hours = t % 86400 / 3600;
        let minutes = t % 3600 / 60;
        let seconds = t % 60;
        let parts = (if days > 0 {
            seq![dec(days as nat) + "d"@]
        } else {
            Seq::empty()
        }) + (if hours > 0 {
            seq![dec(hours as nat) + "h"@]
        } else {
            Seq::empty()
        }) + (if minutes > 0 {
            seq![dec(minutes as nat) + "m"@]
        } else {
            Seq::empty()
        });
        join(if seconds > 0 || parts.len() == 0 {
            parts.push(dec(seconds as nat) + "s"@)
        } else {
            parts
        }, " "@)
    }
}

/// Renders a duration given in milliseconds.
pub fn format_duration(ms: u64) -> (r: String)
    ensures
        r@ == duration_text(ms),
{
    if ms < 1000 {
        let mut r = decimal(ms);
        append(&mut r, " ms");
        return r;
    }
    let t = ms / 1000;
    let days = t / 86400;
    let hours = t % 86400 / 3600;
    let minutes = t % 3600 / 60;
    let seconds = t % 60;
    let mut parts: Vec<String> = Vec::new();
    if days > 0 {
        let mut p = decimal(days);
        append(&mut p, "d");
        parts.push(p);
    }
    let ghost a = texts(parts@);
    if hours > 0 {
        let mut p = decimal(hours);
        append(&mut p, "h");
        parts.push(p);
    }
    let ghost b = texts(parts@);
    if minutes > 0 {
        let mut p = decimal(minutes);
        append(&mut p, "m");
        parts.push(p);
    }
    let ghost c = texts(parts@);
    proof {
        assert(a =~= (if days > 0 { seq![dec(days as nat) + "d"@] } else { Seq::<Seq<char>>::empty() }));
        assert(b =~= a + (if hours > 0 { seq![dec(hours as nat) + "h"@] } else { Seq::<Seq<char>>::empty() }));
        assert(c =~= b + (if minutes > 0 { seq![dec(minutes as nat) + "m"@] } else { Seq::<Seq<char>>::empty() }));
    }
    if seconds > 0 || parts.len() == 0 {
        let mut p = decimal(seconds);
        append(&mut p, "s");
        let ghost pv = p@;
        parts.push(p);
        assert(texts(parts@) =~= c.push(pv));
    }
    join_lines(&parts, " ")
}

} // verus!
