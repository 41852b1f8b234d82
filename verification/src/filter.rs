//! Formats agent output for LINE.
//!
//! LINE shows plain text only and caps a message at [`LINE_MAX_CHARS`] characters. The filter
//! removes terminal escape sequences and the lines in which a tool call narrates itself, trims
//! the rest and cuts it at [`TRUNCATE_AT`] characters.

use vstd::prelude::*;

use crate::text;
use crate::text::{chars_of, starts_with_from, string_of, trim_end_from, trim_start_from};

verus! {

/// Hard ceiling: LINE rejects single text messages above this many characters.
pub const LINE_MAX_CHARS: usize = 5_000;

/// Longer texts are cut here, well below the ceiling, so that the notice always fits.
pub const TRUNCATE_AT: usize = 4_500;

/// What is put behind a text that was cut.
pub const NOTICE: &'static str = "\n\n…[response truncated — open thClaws to read in full]";

/// The escape character, which begins a terminal escape sequence.
pub const ESC: char = '\x1b';

/// Whether `c` ends the escape sequence that `introducer` opened: a byte of `@..=~` ends a
/// control sequence (`[`), BEL ends an operating system command (`]`).
pub open spec fn ends_escape(introducer: char, c: char) -> bool {
    if introducer == '[' {
        '@' <= c <= '~'
    } else {
        c == '\x07'
    }
}

/// What follows the end of the escape sequence in whose body `s` begins; empty where the
/// sequence never ends.
pub open spec fn after_escape(introducer: char, s: Seq<char>) -> Seq<char>
    decreases s.len(),
{
    if s.len() == 0 {
        s
    } else if ends_escape(introducer, s[0]) {
        s.skip(1)
    } else {
        after_escape(introducer, s.skip(1))
    }
}

/// `s` without its escape sequences. An escape character that opens neither a control sequence
/// nor an operating system command is dropped alone.
pub open spec fn without_ansi(s: Seq<char>) -> Seq<char>
    decreases s.len(),
{
    if s.len() == 0 {
        s
    } else if s[0] != ESC {
        seq![s[0]] + without_ansi(s.skip(1))
    } else if s.len() > 1 && (s[1] == '[' || s[1] == ']') {
        proof {
            lemma_after_escape_len(s[1], s.skip(2));
        }
        without_ansi(after_escape(s[1], s.skip(2)))
    } else {
        without_ansi(s.skip(1))
    }
}

/// What follows an escape sequence is no longer than what it was found in.
pub proof fn lemma_after_escape_len(introducer: char, s: Seq<char>)
    ensures
        after_escape(introducer, s).len() <= s.len(),
    decreases s.len(),
{
    if s.len() > 0 && !ends_escape(introducer, s[0]) {
        lemma_after_escape_len(introducer, s.skip(1));
    }
}

/// The index of the first line break in `s`, or its length.
pub open spec fn first_line_len(s: Seq<char>) -> nat
    decreases s.len(),
{
    if s.len() == 0 || s[0] == '\n' {
        0
    } else {
        1 + first_line_len(s.skip(1))
    }
}

/// Where the first line ends: before it there is no line break, at it there is one.
pub proof fn lemma_first_line_len(s: Seq<char>)
    ensures
        first_line_len(s) <= s.len(),
        forall|i: int| 0 <= i < first_line_len(s) ==> s[i] != '\n',
        first_line_len(s) < s.len() ==> s[first_line_len(s) as int] == '\n',
    decreases s.len(),
{
    if s.len() > 0 && s[0] != '\n' {
        let rest = s.skip(1);
        lemma_first_line_len(rest);
        assert forall|i: int| 0 <= i < first_line_len(s) implies s[i] != '\n' by {
            if i > 0 {
                assert(s[i] == rest[i - 1]);
            }
        }
    }
}

/// The pieces of `s` between its line breaks.
pub open spec fn lines(s: Seq<char>) -> Seq<Seq<char>>
    decreases s.len(),
{
    let n = first_line_len(s) as int;
    if n < s.len() {
        seq![s.take(n)] + lines(s.skip(n + 1))
    } else {
        seq![s]
    }
}

/// The text whose lines are `ls`, each closed by a line break.
pub open spec fn unlines(ls: Seq<Seq<char>>) -> Seq<char> {
    ls.flat_map(|l: Seq<char>| l.push('\n'))
}

/// Whether a line only narrates a tool call: past its indentation it begins with a tool bullet
/// (the hammer and wrench with or without its variation selector) or a tool bracket, or is a lone
/// check mark.
pub open spec fn is_narration(line: Seq<char>) -> bool {
    let t = text::trimmed_start(line);
    ||| "⏺"@.is_prefix_of(t)
    ||| "🔧"@.is_prefix_of(t)
    ||| "🛠"@.is_prefix_of(t)
    ||| "🔨"@.is_prefix_of(t)
    ||| "[tool:"@.is_prefix_of(t)
    ||| "[tool "@.is_prefix_of(t)
    ||| t == "✓"@
    ||| "✓ ×"@.is_prefix_of(t)
}

/// The lines of `s` that are not narration, each closed by a line break.
pub open spec fn without_narration(s: Seq<char>) -> Seq<char> {
    unlines(lines(s).filter(|l: Seq<char>| !is_narration(l)))
}

/// `s` where it is short enough, else its beginning and the notice.
pub open spec fn truncated(s: Seq<char>) -> Seq<char> {
    if s.len() <= TRUNCATE_AT {
        s
    } else {
        s.take(TRUNCATE_AT as int) + NOTICE@
    }
}

/// What [`filter_for_line`] makes of a body.
pub open spec fn filtered(s: Seq<char>) -> Seq<char> {
    truncated(text::trimmed(without_narration(without_ansi(s))))
}

/// What a line adds to the text that [`without_narration`] keeps.
pub open spec fn kept_line(line: Seq<char>) -> Seq<char> {
    if is_narration(line) {
        Seq::empty()
    } else {
        line.push('\n')
    }
}

/// The text that one line makes.
pub proof fn lemma_unlines_one(line: Seq<char>)
    ensures
        unlines(seq![line]) == line.push('\n'),
{
    let f = |l: Seq<char>| l.push('\n');
    assert(seq![line].map_values(f) =~= seq![line.push('\n')]);
    seq![line.push('\n')].lemma_flatten_one_element();
}

/// Lines are kept or dropped one by one.
proof fn lemma_kept_one(line: Seq<char>)
    ensures
        unlines(seq![line].filter(|l: Seq<char>| !is_narration(l))) == kept_line(line),
{
    let keep = |l: Seq<char>| !is_narration(l);
    let f = |l: Seq<char>| l.push('\n');
    reveal_with_fuel(Seq::filter, 2);
    assert(seq![line].drop_last() =~= Seq::<Seq<char>>::empty());
    if keep(line) {
        assert(seq![line].filter(keep) =~= seq![line]);
        lemma_unlines_one(line);
    } else {
        assert(seq![line].filter(keep) =~= Seq::<Seq<char>>::empty());
        assert(Seq::<Seq<char>>::empty().map_values(f) =~= Seq::<Seq<char>>::empty());
    }
}

/// The lines of two texts one behind the other.
pub proof fn lemma_unlines_add(a: Seq<Seq<char>>, b: Seq<Seq<char>>)
    ensures
        unlines(a + b) == unlines(a) + unlines(b),
{
    let f = |l: Seq<char>| l.push('\n');
    assert((a + b).map_values(f) =~= a.map_values(f) + b.map_values(f));
    vstd::seq_lib::lemma_flatten_concat(a.map_values(f), b.map_values(f));
}

/// How [`without_narration`] goes on behind the first line.
pub proof fn lemma_without_narration_step(s: Seq<char>)
    ensures
        ({
            let n = first_line_len(s) as int;
            if n < s.len() {
                without_narration(s) == kept_line(s.take(n)) + without_narration(s.skip(n + 1))
            } else {
                without_narration(s) == kept_line(s)
            }
        }),
{
    let n = first_line_len(s) as int;
    let keep = |l: Seq<char>| !is_narration(l);
    if n < s.len() {
        let rest = lines(s.skip(n + 1));
        Seq::filter_distributes_over_add(seq![s.take(n)], rest, keep);
        lemma_unlines_add(seq![s.take(n)].filter(keep), rest.filter(keep));
        lemma_kept_one(s.take(n));
    } else {
        lemma_kept_one(s);
    }
}

/// Drops control sequences (`ESC [ …`) and operating system commands (`ESC ] … BEL`). A bracket
/// payload without an escape character stays: it may be prose about such codes.
pub fn strip_ansi(input: &str) -> (r: String)
    ensures
        r@ == without_ansi(input@),
{
    let v = chars_of(input);
    let mut out = String::new();
    let mut i: usize = 0;
    proof {
        assert(v@.skip(0) =~= v@);
    }
    while i < v.len()
        invariant
            i <= v@.len(),
            out@ + without_ansi(v@.skip(i as int)) == without_ansi(v@),
        decreases v@.len() - i,
    {
        let ghost s = v@.skip(i as int);
        proof {
            assert(s.skip(1) =~= v@.skip(i + 1));
        }
        if v[i] != ESC {
            out.push(v[i]);
            i = i + 1;
        } else if i + 1 < v.len() && (v[i + 1] == '[' || v[i + 1] == ']') {
            let introducer = v[i + 1];
            proof {
                assert(s.skip(2) =~= v@.skip(i + 2));
            }
            i = i + 2;
            i = skip_escape(&v, i, introducer);
        } else {
            i = i + 1;
        }
    }
    out
}

/// The index behind the escape sequence in whose body `v[from..]` begins.
fn skip_escape(v: &Vec<char>, from: usize, introducer: char) -> (r: usize)
    requires
        from <= v@.len(),
    ensures
        from <= r <= v@.len(),
        v@.skip(r as int) == after_escape(introducer, v@.skip(from as int)),
{
    let mut i: usize = from;
    while i < v.len()
        invariant
            from <= i <= v@.len(),
            after_escape(introducer, v@.skip(i as int)) == after_escape(
                introducer,
                v@.skip(from as int),
            ),
        decreases v@.len() - i,
    {
        let c = v[i];
        let ends = if introducer == '[' {
            '@' <= c && c <= '~'
        } else {
            c == '\x07'
        };
        proof {
            assert(v@.skip(i as int).skip(1) =~= v@.skip(i + 1));
        }
        i = i + 1;
        if ends {
            return i;
        }
    }
    proof {
        assert(v@.skip(i as int) =~= Seq::<char>::empty());
    }
    i
}

/// The end of the line that begins at `from`.
fn line_end(v: &Vec<char>, from: usize) -> (r: usize)
    requires
        from <= v@.len(),
    ensures
        from <= r <= v@.len(),
        r - from == first_line_len(v@.skip(from as int)),
{
    let mut i: usize = from;
    while i < v.len() && v[i] != '\n'
        invariant
            from <= i <= v@.len(),
            i - from + first_line_len(v@.skip(i as int)) == first_line_len(v@.skip(from as int)),
        decreases v@.len() - i,
    {
        proof {
            assert(v@.skip(i as int).skip(1) =~= v@.skip(i + 1));
        }
        i = i + 1;
    }
    i
}

/// Whether `v[from..to]` is a line of tool narration.
fn narrates(v: &Vec<char>, from: usize, to: usize) -> (r: bool)
    requires
        from <= to <= v@.len(),
    ensures
        r == is_narration(v@.subrange(from as int, to as int)),
{
    let at = trim_start_from(v, from, to);
    let bullet = starts_with_from(v, at, to, "⏺") || starts_with_from(v, at, to, "🔧")
        || starts_with_from(v, at, to, "🛠") || starts_with_from(v, at, to, "🔨");
    let bracket = starts_with_from(v, at, to, "[tool:") || starts_with_from(v, at, to, "[tool ");
    proof {
        reveal_strlit("✓");
        let t = v@.subrange(at as int, to as int);
        if t.len() == 1 && "✓"@.is_prefix_of(t) {
            assert(t.subrange(0, 1) =~= t);
        }
        if t == "✓"@ {
            assert(t.subrange(0, 1) =~= t);
        }
    }
    let lone_check = (to - at == 1 && starts_with_from(v, at, to, "✓")) || starts_with_from(
        v,
        at,
        to,
        "✓ ×",
    );
    bullet || bracket || lone_check
}

/// Drops the lines that are entirely tool-call narration.
pub fn strip_tool_narration(input: &str) -> (r: String)
    ensures
        r@ == without_narration(input@),
{
    let v = chars_of(input);
    let mut out = String::new();
    let mut from: usize = 0;
    proof {
        assert(v@.skip(0) =~= v@);
    }
    loop
        invariant
            from <= v@.len(),
            v@ == input@,
            out@ + without_narration(v@.skip(from as int)) == without_narration(input@),
        decreases v@.len() - from,
    {
        let ghost s = v@.skip(from as int);
        proof {
            lemma_without_narration_step(s);
        }
        let end = line_end(&v, from);
        proof {
            assert(s.take(end - from) =~= v@.subrange(from as int, end as int));
            if end == v@.len() {
                assert(s =~= v@.subrange(from as int, end as int));
            } else {
                assert(s.skip(end - from + 1) =~= v@.skip(end + 1));
            }
        }
        if !narrates(&v, from, end) {
            out.append(string_of(&v, from, end).as_str());
            out.push('\n');
        }
        if end == v.len() {
            return out;
        }
        from = end + 1;
    }
}

/// The whole pipeline: escape sequences, narration, surrounding whitespace, length.
pub fn filter_for_line(body: &str) -> (r: String)
    ensures
        r@ == filtered(body@),
{
    let no_ansi = strip_ansi(body);
    let no_narration = strip_tool_narration(no_ansi.as_str());
    let v = chars_of(no_narration.as_str());
    proof {
        assert(v@.subrange(0, v@.len() as int) =~= v@);
    }
    let from = trim_start_from(&v, 0, v.len());
    let to = trim_end_from(&v, from, v.len());
    if to - from <= TRUNCATE_AT {
        return string_of(&v, from, to);
    }
    let mut head = string_of(&v, from, from + TRUNCATE_AT);
    proof {
        assert(v@.subrange(from as int, to as int).take(TRUNCATE_AT as int) =~= v@.subrange(
            from as int,
            from + TRUNCATE_AT,
        ));
    }
    head.append(NOTICE);
    head
}

/// Escape sequences and narration only, for text that arrives in chunks. An escape sequence that
/// is split over two chunks is not recognised.
pub fn clean_for_stream(chunk: &str) -> (r: String)
    ensures
        r@ == without_narration(without_ansi(chunk@)),
{
    let no_ansi = strip_ansi(chunk);
    strip_tool_narration(no_ansi.as_str())
}

} // verus!
