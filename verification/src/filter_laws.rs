//! What holds of every text that goes through the filter.

use vstd::prelude::*;

use crate::filter;
use crate::filter::{clean_for_stream, filter_for_line, strip_ansi, strip_tool_narration};
use crate::filter::{ESC, LINE_MAX_CHARS, NOTICE, TRUNCATE_AT};
use crate::text;
use crate::text::trim;

verus! {

/// Whether the escape sequence in whose body `s` begins ends in `s`.
pub open spec fn escape_ends(introducer: char, s: Seq<char>) -> bool {
    exists|i: int| 0 <= i < s.len() && filter::ends_escape(introducer, #[trigger] s[i])
}

/// Whether every escape sequence that `s` opens also ends in `s`.
pub open spec fn escapes_closed(s: Seq<char>) -> bool
    decreases s.len(),
{
    if s.len() == 0 {
        true
    } else if s[0] != ESC {
        escapes_closed(s.skip(1))
    } else if s.len() == 1 {
        false
    } else if s[1] == '[' || s[1] == ']' {
        proof {
            filter::lemma_after_escape_len(s[1], s.skip(2));
        }
        escape_ends(s[1], s.skip(2)) && escapes_closed(filter::after_escape(s[1], s.skip(2)))
    } else {
        escapes_closed(s.skip(1))
    }
}

/// No escape character is left once escape sequences are stripped.
pub proof fn stripping_leaves_no_escape(s: Seq<char>)
    ensures
        !filter::without_ansi(s).contains(ESC),
    decreases s.len(),
{
    if s.len() == 0 {
    } else if s[0] != ESC {
        stripping_leaves_no_escape(s.skip(1));
        let rest = filter::without_ansi(s.skip(1));
        assert forall|i: int|
            0 <= i < filter::without_ansi(s).len() implies filter::without_ansi(s)[i] != ESC by {
            if i > 0 {
                assert(filter::without_ansi(s)[i] == rest[i - 1]);
                assert(!rest.contains(ESC));
            }
        }
    } else if s.len() > 1 && (s[1] == '[' || s[1] == ']') {
        filter::lemma_after_escape_len(s[1], s.skip(2));
        stripping_leaves_no_escape(filter::after_escape(s[1], s.skip(2)));
    } else {
        stripping_leaves_no_escape(s.skip(1));
    }
}

/// Text without an escape character is kept as it is, bracket notation included.
pub proof fn stripping_keeps_plain_text(s: Seq<char>)
    requires
        !s.contains(ESC),
    ensures
        filter::without_ansi(s) == s,
    decreases s.len(),
{
    if s.len() > 0 {
        assert(s[0] != ESC);
        assert forall|i: int| 0 <= i < s.skip(1).len() implies s.skip(1)[i] != ESC by {
            assert(s[i + 1] != ESC);
        }
        stripping_keeps_plain_text(s.skip(1));
        assert(seq![s[0]] + s.skip(1) =~= s);
    }
}

/// Stripping escape sequences a second time changes nothing.
pub proof fn stripping_twice_is_stripping_once(s: Seq<char>)
    ensures
        filter::without_ansi(filter::without_ansi(s)) == filter::without_ansi(s),
{
    stripping_leaves_no_escape(s);
    stripping_keeps_plain_text(filter::without_ansi(s));
}

proof fn lemma_after_escape_add(introducer: char, a: Seq<char>, b: Seq<char>)
    requires
        escape_ends(introducer, a),
    ensures
        filter::after_escape(introducer, a + b) == filter::after_escape(introducer, a) + b,
    decreases a.len(),
{
    let k = choose|i: int| 0 <= i < a.len() && filter::ends_escape(introducer, #[trigger] a[i]);
    assert((a + b).skip(1) =~= a.skip(1) + b);
    if !filter::ends_escape(introducer, a[0]) {
        assert(filter::ends_escape(introducer, a.skip(1)[k - 1]));
        lemma_after_escape_add(introducer, a.skip(1), b);
    }
}

/// Text may be stripped chunk by chunk, as long as no escape sequence spans two chunks.
pub proof fn stripping_goes_by_chunks(a: Seq<char>, b: Seq<char>)
    requires
        escapes_closed(a),
    ensures
        filter::without_ansi(a + b) == filter::without_ansi(a) + filter::without_ansi(b),
    decreases a.len(),
{
    if a.len() == 0 {
        assert(a + b =~= b);
        assert(filter::without_ansi(a) + filter::without_ansi(b) =~= filter::without_ansi(b));
    } else {
        assert((a + b).skip(1) =~= a.skip(1) + b);
        if a[0] != ESC {
            stripping_goes_by_chunks(a.skip(1), b);
            assert(filter::without_ansi(a + b)
                =~= filter::without_ansi(a) + filter::without_ansi(b));
        } else if a[1] == '[' || a[1] == ']' {
            assert((a + b).skip(2) =~= a.skip(2) + b);
            lemma_after_escape_add(a[1], a.skip(2), b);
            filter::lemma_after_escape_len(a[1], a.skip(2));
            stripping_goes_by_chunks(filter::after_escape(a[1], a.skip(2)), b);
        } else {
            stripping_goes_by_chunks(a.skip(1), b);
        }
    }
}

/// No line holds a line break.
pub proof fn lines_hold_no_break(s: Seq<char>)
    ensures
        filter::lines(s).len() > 0,
        forall|i: int|
            0 <= i < filter::lines(s).len() ==> !(#[trigger] filter::lines(s)[i]).contains('\n'),
    decreases s.len(),
{
    filter::lemma_first_line_len(s);
    let n = filter::first_line_len(s) as int;
    if n < s.len() {
        let rest = filter::lines(s.skip(n + 1));
        lines_hold_no_break(s.skip(n + 1));
        assert forall|i: int|
            0 <= i < filter::lines(s).len() implies !(#[trigger] filter::lines(s)[i]).contains(
            '\n',
        ) by {
            if i > 0 {
                assert(filter::lines(s)[i] == rest[i - 1]);
            }
        }
    }
}

/// Closing each line of a text with a line break gives back the text and one line break.
pub proof fn lines_rebuild_text(s: Seq<char>)
    ensures
        filter::unlines(filter::lines(s)) == s.push('\n'),
    decreases s.len(),
{
    filter::lemma_first_line_len(s);
    let n = filter::first_line_len(s) as int;
    if n < s.len() {
        lines_rebuild_text(s.skip(n + 1));
        filter::lemma_unlines_add(seq![s.take(n)], filter::lines(s.skip(n + 1)));
        filter::lemma_unlines_one(s.take(n));
        assert(s.push('\n') =~= s.take(n).push('\n') + s.skip(n + 1).push('\n'));
    } else {
        filter::lemma_unlines_one(s);
    }
}

proof fn lemma_first_line_of(line: Seq<char>, rest: Seq<char>)
    requires
        !line.contains('\n'),
    ensures
        filter::first_line_len(line.push('\n') + rest) == line.len(),
        filter::first_line_len(line) == line.len(),
    decreases line.len(),
{
    if line.len() > 0 {
        assert(line[0] != '\n');
        assert((line.push('\n') + rest).skip(1) =~= line.skip(1).push('\n') + rest);
        assert forall|i: int| 0 <= i < line.skip(1).len() implies line.skip(1)[i] != '\n' by {
            assert(line[i + 1] != '\n');
        }
        lemma_first_line_of(line.skip(1), rest);
    }
}

/// The lines of a text joined by a line break are the lines of its two halves.
pub proof fn lines_split_at_break(a: Seq<char>, b: Seq<char>)
    ensures
        filter::lines(a.push('\n') + b) == filter::lines(a) + filter::lines(b),
    decreases a.len(),
{
    filter::lemma_first_line_len(a);
    let n = filter::first_line_len(a) as int;
    let whole = a.push('\n') + b;
    assert(!a.take(n).contains('\n'));
    if n < a.len() {
        let tail = a.skip(n + 1);
        assert(whole =~= a.take(n).push('\n') + (tail.push('\n') + b));
        lemma_first_line_of(a.take(n), tail.push('\n') + b);
        assert(whole.take(n) =~= a.take(n));
        assert(whole.skip(n + 1) =~= tail.push('\n') + b);
        lines_split_at_break(tail, b);
        assert(filter::lines(whole) =~= filter::lines(a) + filter::lines(b));
    } else {
        assert(a.take(n) =~= a);
        lemma_first_line_of(a, b);
        assert(whole.take(n) =~= a);
        assert(whole.skip(n + 1) =~= b);
    }
}

/// Narration may be stripped piece by piece where the pieces meet at a line break.
pub proof fn narration_goes_line_by_line(a: Seq<char>, b: Seq<char>)
    ensures
        filter::without_narration(a.push('\n') + b)
            == filter::without_narration(a) + filter::without_narration(b),
{
    let keep = |l: Seq<char>| !filter::is_narration(l);
    lines_split_at_break(a, b);
    Seq::filter_distributes_over_add(filter::lines(a), filter::lines(b), keep);
    filter::lemma_unlines_add(filter::lines(a).filter(keep), filter::lines(b).filter(keep));
}

/// A line of narration vanishes together with its line break, so the lines around it stay
/// adjacent.
pub proof fn narration_line_vanishes(before: Seq<char>, line: Seq<char>, after: Seq<char>)
    requires
        !line.contains('\n'),
        filter::is_narration(line),
    ensures
        filter::without_narration(before.push('\n') + (line.push('\n') + after))
            == filter::without_narration(before.push('\n') + after),
{
    narration_goes_line_by_line(before, line.push('\n') + after);
    narration_goes_line_by_line(line, after);
    narration_goes_line_by_line(before, after);
    lemma_first_line_of(line, Seq::empty());
    filter::lemma_without_narration_step(line);
    assert(filter::without_narration(line) =~= Seq::<char>::empty());
    assert(Seq::<char>::empty() + filter::without_narration(after)
        =~= filter::without_narration(after));
}

proof fn lemma_lines_of_unlines(ls: Seq<Seq<char>>)
    requires
        forall|i: int| 0 <= i < ls.len() ==> !(#[trigger] ls[i]).contains('\n'),
    ensures
        filter::lines(filter::unlines(ls)) == ls.push(Seq::empty()),
    decreases ls.len(),
{
    let f = |l: Seq<char>| l.push('\n');
    if ls.len() == 0 {
        assert(ls.map_values(f) =~= Seq::<Seq<char>>::empty());
        assert(filter::lines(filter::unlines(ls)) =~= ls.push(Seq::empty()));
    } else {
        let rest = ls.skip(1);
        assert(ls =~= seq![ls[0]] + rest);
        assert forall|i: int| 0 <= i < rest.len() implies !(#[trigger] rest[i]).contains('\n') by {
            assert(rest[i] == ls[i + 1]);
        }
        lemma_lines_of_unlines(rest);
        filter::lemma_unlines_add(seq![ls[0]], rest);
        filter::lemma_unlines_one(ls[0]);
        lines_split_at_break(ls[0], filter::unlines(rest));
        lemma_first_line_of(ls[0], Seq::empty());
        assert(filter::lines(ls[0]) == seq![ls[0]]);
        assert(filter::lines(filter::unlines(ls)) =~= ls.push(Seq::empty()));
    }
}

proof fn lemma_empty_line_is_kept()
    ensures
        !filter::is_narration(Seq::empty()),
{
    reveal_strlit("⏺");
    reveal_strlit("🔧");
    reveal_strlit("🛠");
    reveal_strlit("🔨");
    reveal_strlit("[tool:");
    reveal_strlit("[tool ");
    reveal_strlit("✓");
    reveal_strlit("✓ ×");
}

/// No line of narration is left once narration is stripped.
pub proof fn stripping_leaves_no_narration(s: Seq<char>)
    ensures
        forall|i: int|
            0 <= i < filter::lines(filter::without_narration(s)).len() ==> !filter::is_narration(
                #[trigger] filter::lines(filter::without_narration(s))[i],
            ),
{
    broadcast use vstd::seq_lib::group_filter_ensures;

    let keep = |l: Seq<char>| !filter::is_narration(l);
    let kept = filter::lines(s).filter(keep);
    lines_hold_no_break(s);
    assert forall|i: int| 0 <= i < kept.len() implies !(#[trigger] kept[i]).contains('\n') by {
        filter::lines(s).lemma_filter_contains_rev(keep, kept[i]);
        let j = choose|j: int| 0 <= j < filter::lines(s).len() && filter::lines(s)[j] == kept[i];
        assert(!filter::lines(s)[j].contains('\n'));
    }
    lemma_lines_of_unlines(kept);
    lemma_empty_line_is_kept();
    assert forall|i: int|
        0 <= i < filter::lines(filter::without_narration(s)).len() implies !filter::is_narration(
        #[trigger] filter::lines(filter::without_narration(s))[i],
    ) by {
        if i < kept.len() {
            assert(filter::lines(filter::without_narration(s))[i] == kept[i]);
            assert(keep(kept[i]));
        }
    }
}

proof fn lemma_filter_keeps_all(ls: Seq<Seq<char>>, keep: spec_fn(Seq<char>) -> bool)
    requires
        forall|i: int| 0 <= i < ls.len() ==> keep(#[trigger] ls[i]),
    ensures
        ls.filter(keep) == ls,
    decreases ls.len(),
{
    reveal(Seq::filter);
    if ls.len() > 0 {
        assert forall|i: int| 0 <= i < ls.drop_last().len() implies keep(
            #[trigger] ls.drop_last()[i],
        ) by {
            assert(keep(ls[i]));
        }
        lemma_filter_keeps_all(ls.drop_last(), keep);
        assert(keep(ls[ls.len() - 1]));
        assert(ls.drop_last().push(ls.last()) =~= ls);
    }
}

/// A text without narration is kept, and closed with a line break.
pub proof fn stripping_keeps_answer_text(s: Seq<char>)
    requires
        forall|i: int|
            0 <= i < filter::lines(s).len() ==>
                !filter::is_narration(#[trigger] filter::lines(s)[i]),
    ensures
        filter::without_narration(s) == s.push('\n'),
{
    let keep = |l: Seq<char>| !filter::is_narration(l);
    lemma_filter_keeps_all(filter::lines(s), keep);
    lines_rebuild_text(s);
}

proof fn lemma_notice()
    ensures
        0 < NOTICE@.len() <= 60,
        !NOTICE@.contains(ESC),
        !text::is_white_space(NOTICE@.last()),
{
    reveal_strlit("\n\n…[response truncated — open thClaws to read in full]");
}

/// LINE takes 5000 characters in one message; longer texts are cut at 4500, so that the notice
/// fits behind them.
pub proof fn cut_leaves_room_for_the_notice()
    ensures
        LINE_MAX_CHARS == 5000,
        TRUNCATE_AT == 4500,
        TRUNCATE_AT + NOTICE@.len() < LINE_MAX_CHARS,
{
    lemma_notice();
}

/// A filtered text always fits into one LINE message.
pub proof fn filtered_text_fits(s: Seq<char>)
    ensures
        filter::filtered(s).len() < LINE_MAX_CHARS,
{
    lemma_notice();
}

/// A filtered text neither begins nor ends with whitespace.
pub proof fn filtered_text_is_trimmed(s: Seq<char>)
    ensures
        filter::filtered(s).len() > 0 ==>
            !text::is_white_space(filter::filtered(s)[0]) && !text::is_white_space(
            filter::filtered(s).last(),
        ),
{
    lemma_notice();
    text::trimming_removes_surrounding_whitespace(
        filter::without_narration(filter::without_ansi(s)),
    );
}

proof fn lemma_unlines_chars(ls: Seq<Seq<char>>, c: char)
    requires
        c != '\n',
        forall|i: int| 0 <= i < ls.len() ==> !(#[trigger] ls[i]).contains(c),
    ensures
        !filter::unlines(ls).contains(c),
    decreases ls.len(),
{
    let f = |l: Seq<char>| l.push('\n');
    if ls.len() == 0 {
        assert(ls.map_values(f) =~= Seq::<Seq<char>>::empty());
    } else {
        let rest = ls.skip(1);
        assert(ls =~= seq![ls[0]] + rest);
        assert forall|i: int| 0 <= i < rest.len() implies !(#[trigger] rest[i]).contains(c) by {
            assert(rest[i] == ls[i + 1]);
        }
        lemma_unlines_chars(rest, c);
        filter::lemma_unlines_add(seq![ls[0]], rest);
        filter::lemma_unlines_one(ls[0]);
        let head = ls[0].push('\n');
        assert forall|i: int|
            0 <= i < filter::unlines(ls).len() implies filter::unlines(ls)[i] != c by {
            if i < ls[0].len() {
                assert(head[i] == ls[0][i]);
                assert(!ls[0].contains(c));
            } else if i >= head.len() {
                assert(filter::unlines(ls)[i] == filter::unlines(rest)[i - head.len()]);
                assert(!filter::unlines(rest).contains(c));
            }
        }
    }
}

proof fn lemma_lines_chars(s: Seq<char>, c: char)
    requires
        !s.contains(c),
    ensures
        forall|i: int|
            0 <= i < filter::lines(s).len() ==> !(#[trigger] filter::lines(s)[i]).contains(c),
    decreases s.len(),
{
    filter::lemma_first_line_len(s);
    let n = filter::first_line_len(s) as int;
    if n < s.len() {
        let rest = s.skip(n + 1);
        assert forall|i: int| 0 <= i < rest.len() implies rest[i] != c by {
            assert(s[i + n + 1] != c);
        }
        assert forall|i: int| 0 <= i < s.take(n).len() implies s.take(n)[i] != c by {
            assert(s[i] != c);
        }
        lemma_lines_chars(rest, c);
        assert forall|i: int|
            0 <= i < filter::lines(s).len() implies !(#[trigger] filter::lines(s)[i]).contains(
            c,
        ) by {
            if i > 0 {
                assert(filter::lines(s)[i] == filter::lines(rest)[i - 1]);
            }
        }
    }
}

/// Text that is cleaned for the stream holds no escape character.
pub proof fn stream_text_has_no_escape(s: Seq<char>)
    ensures
        !filter::without_narration(filter::without_ansi(s)).contains(ESC),
{
    let plain = filter::without_ansi(s);
    let keep = |l: Seq<char>| !filter::is_narration(l);
    let kept = filter::lines(plain).filter(keep);
    stripping_leaves_no_escape(s);
    lemma_lines_chars(plain, ESC);
    assert forall|i: int| 0 <= i < kept.len() implies !(#[trigger] kept[i]).contains(ESC) by {
        filter::lines(plain).lemma_filter_contains_rev(keep, kept[i]);
        let j = choose|j: int|
            0 <= j < filter::lines(plain).len() && filter::lines(plain)[j] == kept[i];
        assert(!filter::lines(plain)[j].contains(ESC));
    }
    lemma_unlines_chars(kept, ESC);
}

/// A stream may be cleaned chunk by chunk where the chunks meet at a line break and no escape
/// sequence spans two of them.
pub proof fn stream_goes_by_chunks(a: Seq<char>, b: Seq<char>)
    requires
        escapes_closed(a),
    ensures
        filter::without_narration(filter::without_ansi(a.push('\n') + b))
            == filter::without_narration(filter::without_ansi(a)) + filter::without_narration(
            filter::without_ansi(b),
        ),
{
    let tail = seq!['\n'] + b;
    assert(a.push('\n') + b =~= a + tail);
    stripping_goes_by_chunks(a, tail);
    assert(tail.skip(1) =~= b);
    let x = filter::without_ansi(a);
    let y = filter::without_ansi(b);
    assert(x + filter::without_ansi(tail) =~= x.push('\n') + y);
    narration_goes_line_by_line(x, y);
}

/// A filtered text holds no escape character.
pub proof fn filtered_text_has_no_escape(s: Seq<char>)
    ensures
        !filter::filtered(s).contains(ESC),
{
    let clean = filter::without_narration(filter::without_ansi(s));
    stream_text_has_no_escape(s);
    text::trimming_removes_surrounding_whitespace(clean);
    lemma_notice();
    let (i, j) = choose|i: int, j: int|
        0 <= i <= j <= clean.len() && text::trimmed(clean) == #[trigger] clean.subrange(i, j);
    let t = text::trimmed(clean);
    assert forall|k: int| 0 <= k < t.len() implies t[k] != ESC by {
        assert(t[k] == clean[i + k]);
    }
    assert forall|k: int|
        0 <= k < filter::filtered(s).len() implies filter::filtered(s)[k] != ESC by {
        if t.len() > TRUNCATE_AT && k >= TRUNCATE_AT {
            assert(filter::filtered(s)[k] == NOTICE@[k - TRUNCATE_AT]);
        }
    }
}

/// Escape sequences do not change what the filter makes of a text.
pub proof fn filtering_ignores_escapes(s: Seq<char>)
    ensures
        filter::filtered(filter::without_ansi(s)) == filter::filtered(s),
{
    stripping_twice_is_stripping_once(s);
}

/// A short, trimmed answer without escape sequences and narration passes unchanged.
pub proof fn plain_answer_passes_unchanged(s: Seq<char>)
    requires
        !s.contains(ESC),
        forall|i: int|
            0 <= i < filter::lines(s).len() ==>
                !filter::is_narration(#[trigger] filter::lines(s)[i]),
        text::trimmed(s) == s,
        s.len() <= TRUNCATE_AT,
    ensures
        filter::filtered(s) == s,
{
    stripping_keeps_plain_text(s);
    stripping_keeps_answer_text(s);
    text::trimming_ignores_trailing_whitespace(s, '\n');
}

/// Whether `c` ends a control sequence: a character of `@..=~`.
pub open spec fn is_final(c: char) -> bool {
    64 <= c as int <= 126
}

/// Whether `e` is one whole control sequence: `ESC [`, parameters, a final character.
pub open spec fn is_control_sequence(e: Seq<char>) -> bool {
    &&& e.len() >= 3
    &&& e[0] == '\x1b'
    &&& e[1] == '['
    &&& forall|i: int| 2 <= i < e.len() - 1 ==> !is_final(#[trigger] e[i])
    &&& is_final(e.last())
}

/// Whether `e` is one whole operating system command: `ESC ]`, a body, BEL.
pub open spec fn is_command(e: Seq<char>) -> bool {
    &&& e.len() >= 3
    &&& e[0] == '\x1b'
    &&& e[1] == ']'
    &&& forall|i: int| 2 <= i < e.len() - 1 ==> #[trigger] e[i] != '\x07'
    &&& e.last() == '\x07'
}

/// Whether `e` opens a control sequence or an operating system command that does not end in it.
pub open spec fn is_unfinished(e: Seq<char>) -> bool {
    &&& e.len() >= 2
    &&& e[0] == '\x1b'
    &&& {
        ||| e[1] == '[' && forall|i: int| 2 <= i < e.len() ==> !is_final(#[trigger] e[i])
        ||| e[1] == ']' && forall|i: int| 2 <= i < e.len() ==> #[trigger] e[i] != '\x07'
    }
}

proof fn lemma_after_body(introducer: char, body: Seq<char>, last: char, rest: Seq<char>)
    requires
        forall|i: int| 0 <= i < body.len() ==> !filter::ends_escape(introducer, #[trigger] body[i]),
        filter::ends_escape(introducer, last),
    ensures
        filter::after_escape(introducer, body + seq![last] + rest) == rest,
    decreases body.len(),
{
    let s = body + seq![last] + rest;
    if body.len() == 0 {
        assert(s.skip(1) =~= rest);
    } else {
        assert(s[0] == body[0]);
        assert(s.skip(1) =~= body.skip(1) + seq![last] + rest);
        assert forall|i: int| 0 <= i < body.skip(1).len() implies !filter::ends_escape(
            introducer,
            #[trigger] body.skip(1)[i],
        ) by {
            assert(!filter::ends_escape(introducer, body[i + 1]));
        }
        lemma_after_body(introducer, body.skip(1), last, rest);
    }
}

proof fn lemma_no_end(introducer: char, body: Seq<char>)
    requires
        forall|i: int| 0 <= i < body.len() ==> !filter::ends_escape(introducer, #[trigger] body[i]),
    ensures
        filter::after_escape(introducer, body).len() == 0,
    decreases body.len(),
{
    if body.len() > 0 {
        assert forall|i: int| 0 <= i < body.skip(1).len() implies !filter::ends_escape(
            introducer,
            #[trigger] body.skip(1)[i],
        ) by {
            assert(!filter::ends_escape(introducer, body[i + 1]));
        }
        lemma_no_end(introducer, body.skip(1));
    }
}

/// Text in front of the first escape character is kept as it is.
pub proof fn stripping_keeps_text_in_front(plain: Seq<char>, rest: Seq<char>)
    requires
        !plain.contains('\x1b'),
    ensures
        filter::without_ansi(plain + rest) == plain + filter::without_ansi(rest),
    decreases plain.len(),
{
    if plain.len() == 0 {
        assert(plain + rest =~= rest);
        assert(plain + filter::without_ansi(rest) =~= filter::without_ansi(rest));
    } else {
        assert(plain[0] != '\x1b');
        assert((plain + rest).skip(1) =~= plain.skip(1) + rest);
        assert forall|i: int| 0 <= i < plain.skip(1).len() implies plain.skip(1)[i] != '\x1b' by {
            assert(plain[i + 1] != '\x1b');
        }
        stripping_keeps_text_in_front(plain.skip(1), rest);
        assert(filter::without_ansi(plain + rest) =~= plain + filter::without_ansi(rest));
    }
}

/// A control sequence goes: `ESC [`, any characters outside `@..=~`, one character of `@..=~`.
pub proof fn control_sequence_goes(parameters: Seq<char>, last: char, rest: Seq<char>)
    requires
        forall|i: int|
            0 <= i < parameters.len() ==> !(64 <= #[trigger] parameters[i] as int <= 126),
        64 <= last as int <= 126,
    ensures
        filter::without_ansi(seq!['\x1b', '['] + parameters + seq![last] + rest)
            == filter::without_ansi(rest),
{
    let s = seq!['\x1b', '['] + parameters + seq![last] + rest;
    assert(s.skip(2) =~= parameters + seq![last] + rest);
    lemma_after_body('[', parameters, last, rest);
}

/// An operating system command goes: `ESC ]`, any characters but BEL, BEL.
pub proof fn command_goes(body: Seq<char>, rest: Seq<char>)
    requires
        !body.contains('\x07'),
    ensures
        filter::without_ansi(seq!['\x1b', ']'] + body + seq!['\x07'] + rest)
            == filter::without_ansi(rest),
{
    let s = seq!['\x1b', ']'] + body + seq!['\x07'] + rest;
    assert(s.skip(2) =~= body + seq!['\x07'] + rest);
    assert forall|i: int| 0 <= i < body.len() implies !filter::ends_escape(
        ']',
        #[trigger] body[i],
    ) by {
        assert(body.contains(body[i]));
    }
    lemma_after_body(']', body, '\x07', rest);
}

/// A whole escape sequence goes, up to its last character and no further.
pub proof fn whole_sequence_goes(e: Seq<char>, rest: Seq<char>)
    requires
        is_control_sequence(e) || is_command(e),
    ensures
        filter::without_ansi(e + rest) == filter::without_ansi(rest),
{
    let body = e.subrange(2, e.len() - 1);
    if is_control_sequence(e) {
        assert forall|i: int| 0 <= i < body.len() implies !(64 <= #[trigger] body[i] as int <= 126) by {
            assert(!is_final(e[i + 2]));
        }
        control_sequence_goes(body, e.last(), rest);
        assert(e + rest =~= seq!['\x1b', '['] + body + seq![e.last()] + rest);
    } else {
        assert forall|i: int| 0 <= i < body.len() implies body[i] != '\x07' by {
            assert(body[i] == e[i + 2]);
        }
        command_goes(body, rest);
        assert(e + rest =~= seq!['\x1b', ']'] + body + seq!['\x07'] + rest);
    }
}

/// An escape sequence that never ends takes everything behind it along.
pub proof fn unfinished_sequence_goes(e: Seq<char>)
    requires
        is_unfinished(e),
    ensures
        filter::without_ansi(e).len() == 0,
{
    let body = e.skip(2);
    assert forall|i: int| 0 <= i < body.len() implies !filter::ends_escape(
        e[1],
        #[trigger] body[i],
    ) by {
        assert(body[i] == e[i + 2]);
    }
    lemma_no_end(e[1], body);
    assert(filter::without_ansi(filter::after_escape(e[1], body)).len() == 0);
}

/// An escape character that no bracket follows goes alone.
pub proof fn lone_escape_goes(rest: Seq<char>)
    requires
        rest.len() > 0 ==> rest[0] != '[' && rest[0] != ']',
    ensures
        filter::without_ansi(seq!['\x1b'] + rest) == filter::without_ansi(rest),
{
    assert((seq!['\x1b'] + rest).skip(1) =~= rest);
}

/// What every two calls of [`strip_ansi`] return: the plain text in front stays, the escape
/// sequence behind it goes, and what follows is stripped as it is on its own.
pub proof fn strip_ansi_goes_sequence_by_sequence(
    input: &str,
    plain: Seq<char>,
    e: Seq<char>,
    rest: &str,
    r: String,
    rest_r: String,
)
    requires
        call_ensures(strip_ansi, (input,), r),
        call_ensures(strip_ansi, (rest,), rest_r),
        input@ == plain + e + rest@,
        !plain.contains('\x1b'),
        ({
            ||| is_control_sequence(e)
            ||| is_command(e)
            ||| is_unfinished(e) && rest@.len() == 0
            ||| e == seq!['\x1b'] && (rest@.len() > 0 ==> rest@[0] != '[' && rest@[0] != ']')
        }),
    ensures
        r@ == plain + rest_r@,
{
    assert(plain + e + rest@ =~= plain + (e + rest@));
    stripping_keeps_text_in_front(plain, e + rest@);
    if is_control_sequence(e) || is_command(e) {
        whole_sequence_goes(e, rest@);
    } else if is_unfinished(e) && rest@.len() == 0 {
        assert(e + rest@ =~= e);
        unfinished_sequence_goes(e);
    } else {
        lone_escape_goes(rest@);
    }
}

/// What every call of [`strip_ansi`] returns for a text without an escape character: the text.
pub proof fn strip_ansi_returns_plain_text(input: &str, r: String)
    requires
        call_ensures(strip_ansi, (input,), r),
        !input@.contains('\x1b'),
    ensures
        r@ == input@,
{
    stripping_keeps_plain_text(input@);
}

/// A text without a line break is one line.
pub proof fn unbroken_text_is_one_line(s: Seq<char>)
    requires
        !s.contains('\n'),
    ensures
        filter::lines(s) == seq![s],
{
    lemma_first_line_of(s, Seq::empty());
}

proof fn lemma_prefix_of_one(p: Seq<char>, c: char, t: Seq<char>)
    requires
        p == seq![c],
    ensures
        p.is_prefix_of(t) <==> t.len() > 0 && t[0] == c,
{
    if t.len() > 0 && t[0] == c {
        assert(p =~= t.subrange(0, 1));
    } else if p.is_prefix_of(t) {
        assert(t.subrange(0, 1)[0] == t[0]);
    }
}

/// Past the indentation, a line narrates a tool call if and only if it begins with a tool bullet,
/// goes on from `[` to `tool:` or `tool` and a space, or is a check mark with nothing or with a
/// multiplication sign behind it.
pub proof fn narration_by_first_characters(indent: Seq<char>, t: Seq<char>)
    requires
        text::is_blank(indent),
        t.len() > 0,
        !text::is_white_space(t[0]),
    ensures
        filter::is_narration(indent + t) <==> {
            ||| t[0] == '⏺' || t[0] == '🔧' || t[0] == '🛠' || t[0] == '🔨'
            ||| t[0] == '[' && t.len() >= 6 && t[1] == 't' && t[2] == 'o' && t[3] == 'o' && t[4]
                == 'l' && (t[5] == ':' || t[5] == ' ')
            ||| t[0] == '✓' && (t.len() == 1 || t.len() >= 3 && t[1] == ' ' && t[2] == '×')
        },
{
    text::indentation_goes(indent, t);
    lemma_literals();
    lemma_prefix_of_one("⏺"@, '⏺', t);
    lemma_prefix_of_one("🔧"@, '🔧', t);
    lemma_prefix_of_one("🛠"@, '🛠', t);
    lemma_prefix_of_one("🔨"@, '🔨', t);
    if t.len() >= 6 {
        let head = t.subrange(0, 6);
        assert forall|i: int| 0 <= i < 6 implies head[i] == t[i] by {}
        if t[0] == '[' && t[1] == 't' && t[2] == 'o' && t[3] == 'o' && t[4] == 'l' {
            if t[5] == ':' {
                assert("[tool:"@ =~= head);
            } else if t[5] == ' ' {
                assert("[tool "@ =~= head);
            }
        }
    }
    if t.len() >= 3 {
        let head = t.subrange(0, 3);
        assert forall|i: int| 0 <= i < 3 implies head[i] == t[i] by {}
        if t[0] == '✓' && t[1] == ' ' && t[2] == '×' {
            assert("✓ ×"@ =~= head);
        }
    }
    if t.len() == 1 && t[0] == '✓' {
        assert(t =~= "✓"@);
    }
}

proof fn lemma_literals()
    ensures
        "⏺"@ == seq!['⏺'],
        "🔧"@ == seq!['🔧'],
        "🛠"@ == seq!['🛠'],
        "🔨"@ == seq!['🔨'],
        "[tool:"@ == seq!['[', 't', 'o', 'o', 'l', ':'],
        "[tool "@ == seq!['[', 't', 'o', 'o', 'l', ' '],
        "✓"@ == seq!['✓'],
        "✓ ×"@ == seq!['✓', ' ', '×'],
{
    reveal_strlit("⏺");
    reveal_strlit("🔧");
    reveal_strlit("🛠");
    reveal_strlit("🔨");
    reveal_strlit("[tool:");
    reveal_strlit("[tool ");
    reveal_strlit("✓");
    reveal_strlit("✓ ×");
}

/// A blank line is kept.
pub proof fn blank_line_is_kept(line: Seq<char>)
    requires
        text::is_blank(line),
    ensures
        !filter::is_narration(line),
{
    text::indentation_goes(line, Seq::empty());
    assert(line + Seq::<char>::empty() =~= line);
    lemma_empty_line_is_kept();
}

/// A line whose first character past the indentation is neither a bullet, nor a check mark, nor
/// an opening bracket is kept.
pub proof fn ordinary_beginning_is_kept(indent: Seq<char>, t: Seq<char>)
    requires
        text::is_blank(indent),
        t.len() > 0,
        !text::is_white_space(t[0]),
        t[0] != '⏺' && t[0] != '🔧' && t[0] != '🛠' && t[0] != '🔨' && t[0] != '✓' && t[0] != '[',
    ensures
        !filter::is_narration(indent + t),
{
    narration_by_first_characters(indent, t);
}

/// Whether the first character of a line past its indentation, if there is one, is neither a
/// bullet, nor a check mark, nor an opening bracket.
pub open spec fn is_ordinary(line: Seq<char>) -> bool {
    forall|k: int|
        0 <= k < line.len() && text::is_blank(line.take(k)) && !text::is_white_space(
            #[trigger] line[k],
        ) ==> line[k] != '⏺' && line[k] != '🔧' && line[k] != '🛠' && line[k] != '🔨' && line[k] != '✓'
            && line[k] != '['
}

/// An ordinary line is kept.
pub proof fn ordinary_line_is_kept(line: Seq<char>)
    requires
        is_ordinary(line),
    ensures
        !filter::is_narration(line),
{
    if text::is_blank(line) {
        blank_line_is_kept(line);
    } else {
        let k = first_visible(line);
        let indent = line.take(k);
        let t = line.skip(k);
        assert(t[0] == line[k]);
        ordinary_beginning_is_kept(indent, t);
        assert(indent + t =~= line);
    }
}

proof fn first_visible(line: Seq<char>) -> (k: int)
    requires
        !text::is_blank(line),
    ensures
        0 <= k < line.len(),
        text::is_blank(line.take(k)),
        !text::is_white_space(line[k]),
    decreases line.len(),
{
    if text::is_white_space(line[0]) {
        let rest = line.skip(1);
        let j = choose|j: int| 0 <= j < line.len() && !text::is_white_space(#[trigger] line[j]);
        assert(line[j] == rest[j - 1]);
        let k = first_visible(rest);
        assert forall|i: int| 0 <= i < line.take(k + 1).len() implies text::is_white_space(
            #[trigger] line.take(k + 1)[i],
        ) by {
            if i > 0 {
                assert(line.take(k + 1)[i] == rest.take(k)[i - 1]);
            }
        }
        k + 1
    } else {
        0
    }
}

/// A text of ordinary lines passes unchanged but for the closing line break.
pub proof fn ordinary_text_is_kept(s: Seq<char>)
    requires
        forall|i: int| 0 <= i < filter::lines(s).len() ==> is_ordinary(#[trigger] filter::lines(s)[i]),
    ensures
        filter::without_narration(s) == s.push('\n'),
{
    assert forall|i: int| 0 <= i < filter::lines(s).len() implies !filter::is_narration(
        #[trigger] filter::lines(s)[i],
    ) by {
        ordinary_line_is_kept(filter::lines(s)[i]);
    }
    stripping_keeps_answer_text(s);
}

/// What every call of [`strip_tool_narration`] returns for one line: nothing where, past the
/// indentation, the line begins as narration does, else the line and a line break.
pub proof fn strip_tool_narration_judges_a_line(
    line: &str,
    indent: Seq<char>,
    t: Seq<char>,
    r: String,
)
    requires
        call_ensures(strip_tool_narration, (line,), r),
        !line@.contains('\n'),
        line@ == indent + t,
        text::is_blank(indent),
        t.len() > 0 ==> !text::is_white_space(t[0]),
    ensures
        ({
            let narrates = {
                ||| t.len() > 0 && (t[0] == '⏺' || t[0] == '🔧' || t[0] == '🛠' || t[0] == '🔨')
                ||| t.len() >= 6 && t[0] == '[' && t[1] == 't' && t[2] == 'o' && t[3] == 'o' && t[4]
                    == 'l' && (t[5] == ':' || t[5] == ' ')
                ||| t.len() == 1 && t[0] == '✓'
                ||| t.len() >= 3 && t[0] == '✓' && t[1] == ' ' && t[2] == '×'
            };
            &&& narrates ==> r@ == Seq::<char>::empty()
            &&& !narrates ==> r@ == line@.push('\n')
        }),
{
    lemma_first_line_of(line@, Seq::empty());
    filter::lemma_without_narration_step(line@);
    if t.len() > 0 {
        narration_by_first_characters(indent, t);
    } else {
        assert(line@ =~= indent);
        blank_line_is_kept(line@);
    }
}

/// What every three calls of [`strip_tool_narration`] return: for two texts joined by a line
/// break, the results for the two, one behind the other.
pub proof fn strip_tool_narration_goes_line_by_line(
    a: &str,
    b: &str,
    joined: &str,
    a_r: String,
    b_r: String,
    joined_r: String,
)
    requires
        call_ensures(strip_tool_narration, (a,), a_r),
        call_ensures(strip_tool_narration, (b,), b_r),
        call_ensures(strip_tool_narration, (joined,), joined_r),
        joined@ == a@.push('\n') + b@,
    ensures
        joined_r@ == a_r@ + b_r@,
{
    narration_goes_line_by_line(a@, b@);
}

/// A text that is too long after cleaning keeps its own first 4500 characters, one by one, and
/// the notice stands behind them.
pub proof fn long_text_keeps_its_beginning(s: Seq<char>)
    requires
        text::trimmed(filter::without_narration(filter::without_ansi(s))).len() > 4500,
    ensures
        ({
            let t = text::trimmed(filter::without_narration(filter::without_ansi(s)));
            let r = filter::filtered(s);
            &&& forall|i: int| 0 <= i < 4500 ==> #[trigger] r[i] == t[i]
            &&& r.skip(4500) == "\n\n…[response truncated — open thClaws to read in full]"@
            &&& r.len() == 4500 + NOTICE@.len()
        }),
{
    let t = text::trimmed(filter::without_narration(filter::without_ansi(s)));
    let r = filter::filtered(s);
    assert(r.skip(4500) =~= NOTICE@);
    assert forall|i: int| 0 <= i < 4500 implies #[trigger] r[i] == t[i] by {
        assert(r[i] == t.take(4500)[i]);
    }
}

/// A text that is short enough after cleaning is kept whole.
pub proof fn short_text_is_kept_whole(s: Seq<char>)
    requires
        text::trimmed(filter::without_narration(filter::without_ansi(s))).len() <= 4500,
    ensures
        filter::filtered(s) == text::trimmed(filter::without_narration(filter::without_ansi(s))),
{
}

/// What every call of [`clean_for_stream`] returns: what stripping narration makes of what
/// stripping escape sequences makes of the chunk.
pub proof fn clean_for_stream_strips_twice(
    chunk: &str,
    plain: &str,
    plain_r: String,
    stripped: String,
    r: String,
)
    requires
        call_ensures(clean_for_stream, (chunk,), r),
        call_ensures(strip_ansi, (chunk,), plain_r),
        plain@ == plain_r@,
        call_ensures(strip_tool_narration, (plain,), stripped),
    ensures
        r@ == stripped@,
{
}

/// What every call of [`filter_for_line`] returns, by the cleaned and trimmed text: the text
/// itself up to 4500 characters; of a longer one the first 4500, one by one, and the notice. So
/// the result always stays below the 5000 characters of a LINE message.
pub proof fn filter_for_line_keeps_the_beginning(
    body: &str,
    clean: &str,
    clean_r: String,
    t: String,
    r: String,
)
    requires
        call_ensures(filter_for_line, (body,), r),
        call_ensures(clean_for_stream, (body,), clean_r),
        clean@ == clean_r@,
        call_ensures(trim, (clean,), t),
    ensures
        t@.len() <= 4500 ==> r@ == t@,
        t@.len() > 4500 ==> {
            &&& forall|i: int| 0 <= i < 4500 ==> #[trigger] r@[i] == t@[i]
            &&& r@.skip(4500) == "\n\n…[response truncated — open thClaws to read in full]"@
            &&& r@.len() > 4500
        },
        r@.len() < 5000,
{
    lemma_notice();
    if t@.len() > 4500 {
        long_text_keeps_its_beginning(body@);
    }
}

/// What every call of [`filter_for_line`] returns for an ordinary answer, whatever it says: the
/// answer itself.
pub proof fn filter_for_line_returns_ordinary_answers(body: &str, r: String)
    requires
        call_ensures(filter_for_line, (body,), r),
        !body@.contains('\x1b'),
        forall|i: int|
            0 <= i < filter::lines(body@).len() ==> is_ordinary(#[trigger] filter::lines(body@)[i]),
        text::has_bare_ends(body@),
        body@.len() <= 4500,
    ensures
        r@ == body@,
{
    stripping_keeps_plain_text(body@);
    ordinary_text_is_kept(body@);
    text::trimming_keeps_bare_text(body@);
    text::trimming_ignores_trailing_whitespace(body@, '\n');
}

} // verus!
