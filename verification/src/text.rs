//! Strings as sequences of characters: trimming, prefixes and conversions.

use vstd::prelude::*;

verus! {

/// Appends one character at the end of a `String` (`String::push`).
pub assume_specification[ String::push ](s: &mut String, c: char)
    ensures
        final(s)@ == old(s)@.push(c),
;

/// The Unicode `White_Space` property.
pub open spec fn is_white_space(c: char) -> bool {
    ||| '\u{9}' <= c <= '\u{d}'
    ||| c == ' '
    ||| c == '\u{85}'
    ||| c == '\u{a0}'
    ||| c == '\u{1680}'
    ||| '\u{2000}' <= c <= '\u{200a}'
    ||| c == '\u{2028}'
    ||| c == '\u{2029}'
    ||| c == '\u{202f}'
    ||| c == '\u{205f}'
    ||| c == '\u{3000}'
}

/// `s` without its leading whitespace.
pub open spec fn trimmed_start(s: Seq<char>) -> Seq<char>
    decreases s.len(),
{
    if s.len() > 0 && is_white_space(s[0]) {
        trimmed_start(s.skip(1))
    } else {
        s
    }
}

/// `s` without its trailing whitespace.
pub open spec fn trimmed_end(s: Seq<char>) -> Seq<char>
    decreases s.len(),
{
    if s.len() > 0 && is_white_space(s.last()) {
        trimmed_end(s.drop_last())
    } else {
        s
    }
}

/// `s` without its surrounding whitespace.
pub open spec fn trimmed(s: Seq<char>) -> Seq<char> {
    trimmed_end(trimmed_start(s))
}

/// `s` without the `c`s at its end.
pub open spec fn trimmed_end_of(s: Seq<char>, c: char) -> Seq<char>
    decreases s.len(),
{
    if s.len() > 0 && s.last() == c {
        trimmed_end_of(s.drop_last(), c)
    } else {
        s
    }
}

/// `s` without the copies of `prefix` at its beginning.
pub open spec fn trimmed_start_of(s: Seq<char>, prefix: Seq<char>) -> Seq<char>
    decreases s.len(),
{
    if prefix.len() > 0 && prefix.is_prefix_of(s) {
        trimmed_start_of(s.skip(prefix.len() as int), prefix)
    } else {
        s
    }
}

/// A number in decimal notation.
pub open spec fn decimal(n: nat) -> Seq<char>
    decreases n,
{
    if n < 10 {
        seq![('0' as int + n) as char]
    } else {
        decimal(n / 10).push(('0' as int + n % 10) as char)
    }
}

/// Whether a character has the Unicode `White_Space` property.
pub fn white_space(c: char) -> (r: bool)
    ensures
        r == is_white_space(c),
{
    ('\u{9}' <= c && c <= '\u{d}') || c == ' ' || c == '\u{85}' || c == '\u{a0}' || c == '\u{1680}'
        || ('\u{2000}' <= c && c <= '\u{200a}') || c == '\u{2028}' || c == '\u{2029}' || c
        == '\u{202f}' || c == '\u{205f}' || c == '\u{3000}'
}

/// The characters of a string.
pub(crate) fn chars_of(s: &str) -> (r: Vec<char>)
    ensures
        r@ == s@,
{
    let mut out: Vec<char> = Vec::new();
    for c in it: s.chars()
        invariant
            out@ == s@.take(it.index()),
            it.seq() == s@,
    {
        out.push(c);
    }
    out
}

/// The string made of `v[from..to]`.
pub(crate) fn string_of(v: &Vec<char>, from: usize, to: usize) -> (r: String)
    requires
        from <= to <= v@.len(),
    ensures
        r@ == v@.subrange(from as int, to as int),
{
    let mut out = String::new();
    let mut i: usize = from;
    while i < to
        invariant
            from <= i <= to <= v@.len(),
            out@ == v@.subrange(from as int, i as int),
        decreases to - i,
    {
        out.push(v[i]);
        i = i + 1;
    }
    out
}

/// The first index of `v[from..to]` past its leading whitespace.
pub(crate) fn trim_start_from(v: &Vec<char>, from: usize, to: usize) -> (r: usize)
    requires
        from <= to <= v@.len(),
    ensures
        from <= r <= to,
        v@.subrange(r as int, to as int) == trimmed_start(v@.subrange(from as int, to as int)),
{
    let mut i: usize = from;
    while i < to && white_space(v[i])
        invariant
            from <= i <= to <= v@.len(),
            trimmed_start(v@.subrange(i as int, to as int)) == trimmed_start(
                v@.subrange(from as int, to as int),
            ),
        decreases to - i,
    {
        proof {
            assert(v@.subrange(i as int, to as int).skip(1) =~= v@.subrange(i + 1, to as int));
        }
        i = i + 1;
    }
    i
}

/// The index after the last character of `v[from..to]` that is not trailing whitespace.
pub(crate) fn trim_end_from(v: &Vec<char>, from: usize, to: usize) -> (r: usize)
    requires
        from <= to <= v@.len(),
    ensures
        from <= r <= to,
        v@.subrange(from as int, r as int) == trimmed_end(v@.subrange(from as int, to as int)),
{
    let mut i: usize = to;
    while from < i && white_space(v[i - 1])
        invariant
            from <= i <= to <= v@.len(),
            trimmed_end(v@.subrange(from as int, i as int)) == trimmed_end(
                v@.subrange(from as int, to as int),
            ),
        decreases i,
    {
        proof {
            assert(v@.subrange(from as int, i as int).drop_last() =~= v@.subrange(
                from as int,
                i - 1,
            ));
        }
        i = i - 1;
    }
    i
}

/// A string without its surrounding whitespace.
pub fn trim(s: &str) -> (r: String)
    ensures
        r@ == trimmed(s@),
{
    let v = chars_of(s);
    proof {
        assert(v@.subrange(0, v@.len() as int) =~= s@);
    }
    let from = trim_start_from(&v, 0, v.len());
    let to = trim_end_from(&v, from, v.len());
    string_of(&v, from, to)
}

/// Whether `v[from..to]` begins with `prefix`.
pub(crate) fn starts_with_from(v: &Vec<char>, from: usize, to: usize, prefix: &str) -> (r: bool)
    requires
        from <= to <= v@.len(),
    ensures
        r == prefix@.is_prefix_of(v@.subrange(from as int, to as int)),
{
    let p = chars_of(prefix);
    if p.len() > to - from {
        return false;
    }
    let mut i: usize = 0;
    while i < p.len()
        invariant
            from <= to <= v@.len(),
            p@ == prefix@,
            i <= p@.len() <= to - from,
            forall|j: int| 0 <= j < i ==> p@[j] == v@[from + j],
        decreases p@.len() - i,
    {
        if p[i] != v[from + i] {
            proof {
                assert(v@.subrange(from as int, to as int)[i as int] == v@[from + i]);
                assert(v@.subrange(from as int, to as int).subrange(0, p@.len() as int)[i as int]
                    == v@[from + i]);
            }
            return false;
        }
        i = i + 1;
    }
    proof {
        assert(p@ =~= v@.subrange(from as int, to as int).subrange(0, p@.len() as int));
    }
    true
}

/// Whether a string begins with `prefix`.
pub fn starts_with(s: &str, prefix: &str) -> (r: bool)
    ensures
        r == prefix@.is_prefix_of(s@),
{
    let v = chars_of(s);
    proof {
        assert(v@.subrange(0, v@.len() as int) =~= s@);
    }
    starts_with_from(&v, 0, v.len(), prefix)
}

/// A string without the `c`s at its end.
pub fn trim_end_matches(s: &str, c: char) -> (r: String)
    ensures
        r@ == trimmed_end_of(s@, c),
{
    let v = chars_of(s);
    let mut to: usize = v.len();
    proof {
        assert(v@.subrange(0, v@.len() as int) =~= s@);
    }
    while 0 < to && v[to - 1] == c
        invariant
            to <= v@.len(),
            trimmed_end_of(v@.subrange(0, to as int), c) == trimmed_end_of(s@, c),
        decreases to,
    {
        proof {
            assert(v@.subrange(0, to as int).drop_last() =~= v@.subrange(0, to - 1));
        }
        to = to - 1;
    }
    string_of(&v, 0, to)
}

/// A string without the copies of `prefix` at its beginning.
pub fn trim_start_matches(s: &str, prefix: &str) -> (r: String)
    ensures
        r@ == trimmed_start_of(s@, prefix@),
{
    let v = chars_of(s);
    let n = chars_of(prefix).len();
    let mut from: usize = 0;
    proof {
        assert(v@.subrange(0, v@.len() as int) =~= s@);
    }
    while n > 0 && starts_with_from(&v, from, v.len(), prefix)
        invariant
            n == prefix@.len(),
            from <= v@.len(),
            trimmed_start_of(v@.subrange(from as int, v@.len() as int), prefix@)
                == trimmed_start_of(s@, prefix@),
        decreases v@.len() - from,
    {
        proof {
            assert(v@.subrange(from as int, v@.len() as int).skip(n as int) =~= v@.subrange(
                from + n,
                v@.len() as int,
            ));
        }
        from = from + n;
    }
    string_of(&v, from, v.len())
}

/// A number in decimal notation.
pub fn decimal_of(n: u64) -> (r: String)
    ensures
        r@ == decimal(n as nat),
    decreases n,
{
    let mut out = if n < 10 {
        String::new()
    } else {
        decimal_of(n / 10)
    };
    out.push(('0' as u8 + (n % 10) as u8) as char);
    out
}

proof fn lemma_trimmed_start(s: Seq<char>)
    ensures
        trimmed_start(s).len() <= s.len(),
        trimmed_start(s) == s.skip(s.len() - trimmed_start(s).len()),
        trimmed_start(s).len() > 0 ==> !is_white_space(trimmed_start(s)[0]),
    decreases s.len(),
{
    if s.len() > 0 && is_white_space(s[0]) {
        lemma_trimmed_start(s.skip(1));
        let t = trimmed_start(s);
        assert(s.skip(1).skip(s.skip(1).len() - t.len()) =~= s.skip(s.len() - t.len()));
    } else {
        assert(s.skip(0) =~= s);
    }
}

proof fn lemma_trimmed_end(s: Seq<char>)
    ensures
        trimmed_end(s).len() <= s.len(),
        trimmed_end(s) == s.take(trimmed_end(s).len() as int),
        trimmed_end(s).len() > 0 ==> !is_white_space(trimmed_end(s).last()),
    decreases s.len(),
{
    if s.len() > 0 && is_white_space(s.last()) {
        lemma_trimmed_end(s.drop_last());
        let t = trimmed_end(s);
        assert(s.drop_last().take(t.len() as int) =~= s.take(t.len() as int));
    } else {
        assert(s.take(s.len() as int) =~= s);
    }
}

/// A trimmed text neither begins nor ends with whitespace, and is a piece of the text.
pub proof fn trimming_removes_surrounding_whitespace(s: Seq<char>)
    ensures
        trimmed(s).len() > 0 ==> !is_white_space(trimmed(s)[0]) && !is_white_space(
            trimmed(s).last(),
        ),
        exists|i: int, j: int|
            0 <= i <= j <= s.len() && trimmed(s) == #[trigger] s.subrange(i, j),
{
    let t = trimmed_start(s);
    lemma_trimmed_start(s);
    lemma_trimmed_end(t);
    let i = s.len() - t.len();
    let j = i + trimmed(s).len();
    assert(trimmed(s) =~= s.subrange(i, j));
}

/// Whitespace behind a text does not change what trimming makes of it.
pub proof fn trimming_ignores_trailing_whitespace(s: Seq<char>, c: char)
    requires
        is_white_space(c),
    ensures
        trimmed(s.push(c)) == trimmed(s),
    decreases s.len(),
{
    if s.len() == 0 {
        assert(s.push(c).skip(1) =~= s);
        assert(trimmed_start(s.push(c)) == trimmed_start(s.push(c).skip(1)));
    } else if is_white_space(s[0]) {
        assert(s.push(c).skip(1) =~= s.skip(1).push(c));
        trimming_ignores_trailing_whitespace(s.skip(1), c);
    } else {
        assert(s.push(c).drop_last() =~= s);
    }
}

/// Trimming a second time changes nothing.
pub proof fn trimming_twice_is_trimming_once(s: Seq<char>)
    ensures
        trimmed(trimmed(s)) == trimmed(s),
{
    trimming_removes_surrounding_whitespace(s);
}

/// Whether `s` holds nothing but whitespace.
pub open spec fn is_blank(s: Seq<char>) -> bool {
    forall|i: int| 0 <= i < s.len() ==> is_white_space(#[trigger] s[i])
}

/// Whether `s` is more than whitespace and has none at its ends.
pub open spec fn has_bare_ends(s: Seq<char>) -> bool {
    s.len() > 0 && !is_white_space(s[0]) && !is_white_space(s.last())
}

/// The value of a sequence of decimal digits.
pub open spec fn decimal_value(digits: Seq<char>) -> int
    decreases digits.len(),
{
    if digits.len() == 0 {
        0
    } else {
        10 * decimal_value(digits.drop_last()) + (digits.last() as int - 48)
    }
}

/// Whitespace is the 25 characters that Unicode lists, by their numbers: the line and page
/// controls, the ordinary and the no-break space, and the typographic spaces.
pub proof fn white_space_by_numbers(c: char)
    ensures
        is_white_space(c) <==> {
            let n = c as int;
            ||| 9 <= n <= 13
            ||| n == 32
            ||| n == 133
            ||| n == 160
            ||| n == 5760
            ||| 8192 <= n <= 8202
            ||| 8232 <= n <= 8233
            ||| n == 8239
            ||| n == 8287
            ||| n == 12288
        },
{
}

/// What is behind the indentation is kept as it is, and a blank text has nothing behind it.
pub proof fn indentation_goes(indent: Seq<char>, rest: Seq<char>)
    requires
        is_blank(indent),
        rest.len() > 0 ==> !is_white_space(rest[0]),
    ensures
        trimmed_start(indent + rest) == rest,
    decreases indent.len(),
{
    if indent.len() == 0 {
        assert(indent + rest =~= rest);
    } else {
        assert((indent + rest)[0] == indent[0]);
        assert((indent + rest).skip(1) =~= indent.skip(1) + rest);
        assert forall|i: int| 0 <= i < indent.skip(1).len() implies is_white_space(
            #[trigger] indent.skip(1)[i],
        ) by {
            assert(is_white_space(indent[i + 1]));
        }
        indentation_goes(indent.skip(1), rest);
    }
}

proof fn lemma_trailing_blanks(s: Seq<char>, back: Seq<char>)
    requires
        is_blank(back),
        s.len() > 0 ==> !is_white_space(s.last()),
    ensures
        trimmed_end(s + back) == s,
    decreases back.len(),
{
    if back.len() == 0 {
        assert(s + back =~= s);
    } else {
        assert((s + back).last() == back[back.len() - 1]);
        assert((s + back).drop_last() =~= s + back.drop_last());
        assert forall|i: int| 0 <= i < back.drop_last().len() implies is_white_space(
            #[trigger] back.drop_last()[i],
        ) by {
            assert(is_white_space(back[i]));
        }
        lemma_trailing_blanks(s, back.drop_last());
    }
}

/// Trimming takes the whitespace in front and behind, all of it, and nothing in between.
pub proof fn trimming_keeps_what_whitespace_surrounds(
    front: Seq<char>,
    middle: Seq<char>,
    back: Seq<char>,
)
    requires
        is_blank(front),
        has_bare_ends(middle),
        is_blank(back),
    ensures
        trimmed(front + middle + back) == middle,
{
    assert(front + middle + back =~= front + (middle + back));
    indentation_goes(front, middle + back);
    lemma_trailing_blanks(middle, back);
}

/// A text with no whitespace at its ends is trimmed already.
pub proof fn trimming_keeps_bare_text(s: Seq<char>)
    requires
        has_bare_ends(s),
    ensures
        trimmed(s) == s,
{
    let none = Seq::<char>::empty();
    trimming_keeps_what_whitespace_surrounds(none, s, none);
    assert(none + s + none =~= s);
}

/// Nothing is left of a blank text, and of no other.
pub proof fn trimming_empties_only_blank_text(s: Seq<char>)
    ensures
        trimmed(s).len() == 0 <==> is_blank(s),
{
    if is_blank(s) {
        let none = Seq::<char>::empty();
        indentation_goes(s, none);
        assert(s + none =~= s);
    } else {
        let k = choose|k: int| 0 <= k < s.len() && !is_white_space(#[trigger] s[k]);
        trimming_takes_whitespace_only(s);
        let (i, j) = choose|i: int, j: int|
            0 <= i <= j <= s.len() && trimmed(s) == #[trigger] s.subrange(i, j) && is_blank(
                s.take(i),
            ) && is_blank(s.skip(j));
        if i == j {
            if k < i {
                assert(s.take(i)[k] == s[k]);
            } else {
                assert(s.skip(j)[k - j] == s[k]);
            }
        }
    }
}

/// What trimming takes away is whitespace: the result is a piece of the text with nothing but
/// whitespace in front of it and behind it.
pub proof fn trimming_takes_whitespace_only(s: Seq<char>)
    ensures
        exists|i: int, j: int|
            0 <= i <= j <= s.len() && trimmed(s) == #[trigger] s.subrange(i, j) && is_blank(
                s.take(i),
            ) && is_blank(s.skip(j)),
    decreases s.len(),
{
    if s.len() == 0 {
        assert(trimmed(s) =~= s.subrange(0, 0));
    } else if is_white_space(s[0]) {
        let rest = s.skip(1);
        trimming_takes_whitespace_only(rest);
        let (i, j) = choose|i: int, j: int|
            0 <= i <= j <= rest.len() && trimmed(rest) == #[trigger] rest.subrange(i, j)
                && is_blank(rest.take(i)) && is_blank(rest.skip(j));
        assert(rest.subrange(i, j) =~= s.subrange(i + 1, j + 1));
        assert forall|k: int| 0 <= k < s.take(i + 1).len() implies is_white_space(
            #[trigger] s.take(i + 1)[k],
        ) by {
            if k > 0 {
                assert(s.take(i + 1)[k] == rest.take(i)[k - 1]);
            }
        }
        assert(s.skip(j + 1) =~= rest.skip(j));
    } else if is_white_space(s.last()) {
        let rest = s.drop_last();
        assert(s =~= rest.push(s.last()));
        trimming_ignores_trailing_whitespace(rest, s.last());
        trimming_takes_whitespace_only(rest);
        let (i, j) = choose|i: int, j: int|
            0 <= i <= j <= rest.len() && trimmed(rest) == #[trigger] rest.subrange(i, j)
                && is_blank(rest.take(i)) && is_blank(rest.skip(j));
        assert(rest.subrange(i, j) =~= s.subrange(i, j));
        assert(s.take(i) =~= rest.take(i));
        assert forall|k: int| 0 <= k < s.skip(j).len() implies is_white_space(
            #[trigger] s.skip(j)[k],
        ) by {
            if k < rest.skip(j).len() {
                assert(s.skip(j)[k] == rest.skip(j)[k]);
            }
        }
    } else {
        assert(trimmed(s) =~= s.subrange(0, s.len() as int));
    }
}

/// Trimming a character off the end takes all its copies there and nothing else: the result
/// begins the text, only copies follow it, and it does not end with one.
pub proof fn end_trimming_takes_copies_only(s: Seq<char>, c: char)
    ensures
        ({
            let t = trimmed_end_of(s, c);
            &&& t.len() <= s.len()
            &&& t == s.take(t.len() as int)
            &&& forall|i: int| t.len() <= i < s.len() ==> #[trigger] s[i] == c
            &&& t.len() > 0 ==> t.last() != c
        }),
    decreases s.len(),
{
    let t = trimmed_end_of(s, c);
    if s.len() > 0 && s.last() == c {
        let rest = s.drop_last();
        end_trimming_takes_copies_only(rest, c);
        assert(s.take(t.len() as int) =~= rest.take(t.len() as int));
        assert forall|i: int| t.len() <= i < s.len() implies #[trigger] s[i] == c by {
            if i < rest.len() {
                assert(rest[i] == c);
            }
        }
    } else {
        assert(s.take(s.len() as int) =~= s);
    }
}

/// A copy of the prefix in front makes no difference to trimming the prefix off.
pub proof fn start_trimming_ignores_a_copy(prefix: Seq<char>, s: Seq<char>)
    requires
        prefix.len() > 0,
    ensures
        trimmed_start_of(prefix + s, prefix) == trimmed_start_of(s, prefix),
{
    let whole = prefix + s;
    assert(prefix =~= whole.subrange(0, prefix.len() as int));
    assert(whole.skip(prefix.len() as int) =~= s);
}

/// A text that does not begin with the prefix stays as it is, and so does every text where the
/// prefix is empty.
pub proof fn start_trimming_keeps_other_text(prefix: Seq<char>, s: Seq<char>)
    requires
        prefix.len() == 0 || !prefix.is_prefix_of(s),
    ensures
        trimmed_start_of(s, prefix) == s,
{
}

/// A number can be read back from its decimal notation, which holds digits only and begins with
/// a zero for zero alone.
pub proof fn decimal_reads_back(n: nat)
    ensures
        decimal_value(decimal(n)) == n,
        decimal(n).len() > 0,
        forall|i: int| 0 <= i < decimal(n).len() ==> 48 <= #[trigger] decimal(n)[i] as int <= 57,
        decimal(n)[0] as int == 48 ==> n == 0 && decimal(n).len() == 1,
    decreases n,
{
    if n < 10 {
        let c = ('0' as int + n) as char;
        assert(c as int == 48 + n);
        assert(decimal(n).drop_last() =~= Seq::<char>::empty());
        reveal_with_fuel(decimal_value, 2);
    } else {
        let front = decimal(n / 10);
        let c = ('0' as int + n % 10) as char;
        assert(c as int == 48 + n % 10);
        decimal_reads_back(n / 10);
        assert(decimal(n).drop_last() =~= front);
        assert forall|i: int| 0 <= i < decimal(n).len() implies 48 <= #[trigger] decimal(
            n,
        )[i] as int <= 57 by {
            if i < front.len() {
                assert(decimal(n)[i] == front[i]);
            }
        }
        assert(decimal(n)[0] == front[0]);
    }
}

/// What every call of [`trim`] returns: what is between the surrounding whitespace, and nothing
/// for a blank text.
pub proof fn trim_returns_the_middle(
    s: &str,
    front: Seq<char>,
    middle: Seq<char>,
    back: Seq<char>,
    r: String,
)
    requires
        call_ensures(trim, (s,), r),
        s@ == front + middle + back,
        is_blank(front),
        middle.len() == 0 || has_bare_ends(middle),
        is_blank(back),
    ensures
        r@ == middle,
{
    if middle.len() > 0 {
        trimming_keeps_what_whitespace_surrounds(front, middle, back);
    } else {
        assert forall|i: int| 0 <= i < s@.len() implies is_white_space(#[trigger] s@[i]) by {
            if i < front.len() {
                assert(s@[i] == front[i]);
            } else {
                assert(s@[i] == back[i - front.len()]);
            }
        }
        trimming_empties_only_blank_text(s@);
    }
}

/// What every call of [`starts_with`] returns: whether the first characters are the prefix.
pub proof fn starts_with_compares_characters(s: &str, prefix: &str, r: bool)
    requires
        call_ensures(starts_with, (s, prefix), r),
    ensures
        r <==> prefix@.len() <= s@.len() && forall|i: int|
            0 <= i < prefix@.len() ==> #[trigger] s@[i] == prefix@[i],
{
    if prefix@.is_prefix_of(s@) {
        assert forall|i: int| 0 <= i < prefix@.len() implies #[trigger] s@[i] == prefix@[i] by {
            assert(s@.subrange(0, prefix@.len() as int)[i] == s@[i]);
        }
    } else if prefix@.len() <= s@.len() {
        if forall|i: int| 0 <= i < prefix@.len() ==> #[trigger] s@[i] == prefix@[i] {
            assert(prefix@ =~= s@.subrange(0, prefix@.len() as int));
        }
    }
}

/// What every call of [`trim_end_matches`] returns: `body` where the text is `body` and copies of
/// the character.
pub proof fn trim_end_matches_returns_the_body(s: &str, c: char, body: Seq<char>, r: String)
    requires
        call_ensures(trim_end_matches, (s, c), r),
        body.is_prefix_of(s@),
        forall|i: int| body.len() <= i < s@.len() ==> #[trigger] s@[i] == c,
        body.len() > 0 ==> body.last() != c,
    ensures
        r@ == body,
{
    end_trimming_takes_copies_only(s@, c);
    let n = body.len() as int;
    assert(body =~= s@.take(n));
    if r@.len() > n {
        assert(r@.last() == s@[r@.len() - 1]);
    } else if r@.len() < n {
        assert(body.last() == s@[n - 1]);
    }
}

/// What every two calls of [`trim_start_matches`] return: the same with a copy of the prefix in
/// front as without it, and the text itself where it does not begin with the prefix.
pub proof fn trim_start_matches_takes_copies_only(
    s: &str,
    longer: &str,
    prefix: &str,
    r: String,
    longer_r: String,
)
    requires
        call_ensures(trim_start_matches, (s, prefix), r),
        call_ensures(trim_start_matches, (longer, prefix), longer_r),
        prefix@.len() > 0,
        longer@ == prefix@ + s@,
    ensures
        longer_r@ == r@,
        !prefix@.is_prefix_of(s@) ==> r@ == s@,
{
    start_trimming_ignores_a_copy(prefix@, s@);
}

/// What every call of [`decimal_of`] returns: digits of that value, without a leading zero.
pub proof fn decimal_of_reads_back(n: u64, r: String)
    requires
        call_ensures(decimal_of, (n,), r),
    ensures
        decimal_value(r@) == n,
        forall|i: int| 0 <= i < r@.len() ==> 48 <= #[trigger] r@[i] as int <= 57,
        r@.len() > 0,
        r@[0] as int == 48 ==> n == 0 && r@.len() == 1,
{
    decimal_reads_back(n as nat);
}

} // verus!
