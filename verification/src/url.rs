//! Percent-encoding of the parts of a URL.

use vstd::prelude::*;
use vstd::utf8::*;

verus! {

/// The bytes that stand for themselves in a URL: letters, digits and `-`, `.`, `_`, `~`.
pub open spec fn is_unreserved(b: u8) -> bool {
    ||| '0' as u8 <= b <= '9' as u8
    ||| 'A' as u8 <= b <= 'Z' as u8
    ||| 'a' as u8 <= b <= 'z' as u8
    ||| b == '-' as u8
    ||| b == '.' as u8
    ||| b == '_' as u8
    ||| b == '~' as u8
}

/// The hexadecimal digit of `n < 16`, in upper case.
pub open spec fn hex_digit(n: int) -> char {
    if n < 10 {
        ('0' as int + n) as char
    } else {
        ('A' as int + n - 10) as char
    }
}

/// What one byte becomes.
pub open spec fn encoded_byte(b: u8) -> Seq<char> {
    if is_unreserved(b) {
        seq![b as char]
    } else {
        seq!['%', hex_digit(b as int / 16), hex_digit(b as int % 16)]
    }
}

/// Every byte encoded, in order.
pub open spec fn encoded_bytes(bytes: Seq<u8>) -> Seq<char>
    decreases bytes.len(),
{
    if bytes.len() == 0 {
        Seq::empty()
    } else {
        encoded_byte(bytes[0]) + encoded_bytes(bytes.skip(1))
    }
}

/// A text percent-encoded: each byte of its UTF-8 form.
pub open spec fn percent_encoded(s: Seq<char>) -> Seq<char> {
    encoded_bytes(encode_utf8(s))
}

/// `urlencoding::encode`. Every byte of the UTF-8 form of `data` other than a letter, a digit,
/// `-`, `.`, `_` or `~` becomes `%` and two hexadecimal digits in upper case; the others stay.
#[verifier::external_body]
pub(crate) fn percent_encode(data: &str) -> (r: String)
    ensures
        r@ == percent_encoded(data@),
{
    urlencoding::encode(data).into_owned()
}

/// The number that a hexadecimal digit in upper case stands for.
pub open spec fn hex_value(c: char) -> int {
    if c <= '9' {
        c as int - '0' as int
    } else {
        c as int - 'A' as int + 10
    }
}

/// The bytes that an encoded text stands for.
pub open spec fn decoded_bytes(s: Seq<char>) -> Seq<u8>
    decreases s.len(),
{
    if s.len() == 0 {
        Seq::empty()
    } else if s[0] == '%' && s.len() >= 3 {
        seq![(16 * hex_value(s[1]) + hex_value(s[2])) as u8] + decoded_bytes(s.skip(3))
    } else {
        seq![s[0] as u8] + decoded_bytes(s.skip(1))
    }
}

/// Decoding an encoded byte sequence gives it back.
pub proof fn decoding_undoes_encoding(bytes: Seq<u8>)
    ensures
        decoded_bytes(encoded_bytes(bytes)) == bytes,
    decreases bytes.len(),
{
    if bytes.len() > 0 {
        let b = bytes[0];
        let rest = encoded_bytes(bytes.skip(1));
        let s = encoded_bytes(bytes);
        decoding_undoes_encoding(bytes.skip(1));
        if is_unreserved(b) {
            assert(s.skip(1) =~= rest);
        } else {
            assert(s.skip(3) =~= rest);
            assert(hex_value(s[1]) == b as int / 16);
            assert(hex_value(s[2]) == b as int % 16);
        }
        assert(seq![b] + bytes.skip(1) =~= bytes);
    }
}

/// Two texts with the same encoding are the same.
pub proof fn encoding_tells_texts_apart(a: Seq<char>, b: Seq<char>)
    requires
        percent_encoded(a) == percent_encoded(b),
    ensures
        a == b,
{
    decoding_undoes_encoding(encode_utf8(a));
    decoding_undoes_encoding(encode_utf8(b));
    encode_utf8_decode_utf8(a);
    encode_utf8_decode_utf8(b);
}

proof fn lemma_encoded_bytes_chars(bytes: Seq<u8>)
    ensures
        forall|i: int|
            0 <= i < encoded_bytes(bytes).len() ==> {
                let c = #[trigger] encoded_bytes(bytes)[i];
                c == '%' || (c <= '~' && is_unreserved(c as u8))
            },
    decreases bytes.len(),
{
    if bytes.len() > 0 {
        let head = encoded_byte(bytes[0]);
        let rest = encoded_bytes(bytes.skip(1));
        lemma_encoded_bytes_chars(bytes.skip(1));
        assert forall|i: int| 0 <= i < encoded_bytes(bytes).len() implies {
            let c = #[trigger] encoded_bytes(bytes)[i];
            c == '%' || (c <= '~' && is_unreserved(c as u8))
        } by {
            if i >= head.len() {
                assert(encoded_bytes(bytes)[i] == rest[i - head.len()]);
            } else {
                assert(encoded_bytes(bytes)[i] == head[i]);
            }
        }
    }
}

/// An encoded text holds `%` and unreserved characters only, so it never leaves the part of the
/// URL that it is put into.
pub proof fn encoding_stays_in_its_segment(s: Seq<char>)
    ensures
        forall|i: int|
            0 <= i < percent_encoded(s).len() ==> {
                let c = #[trigger] percent_encoded(s)[i];
                c == '%' || (c <= '~' && is_unreserved(c as u8))
            },
        !percent_encoded(s).contains('/'),
        !percent_encoded(s).contains('?'),
        !percent_encoded(s).contains('&'),
        !percent_encoded(s).contains('#'),
        !percent_encoded(s).contains(' '),
{
    lemma_encoded_bytes_chars(encode_utf8(s));
}

proof fn lemma_least_char(c: char)
    ensures
        '\0' <= c,
{
}

proof fn lemma_ascii(s: Seq<char>)
    requires
        forall|i: int| 0 <= i < s.len() ==> (#[trigger] s[i]) <= '~',
    ensures
        is_ascii_chars(s),
{
    assert forall|i: int| 0 <= i < s.len() implies '\0' <= #[trigger] s[i] <= '\u{7f}' by {
        lemma_least_char(s[i]);
    }
}

/// A text of unreserved characters is its own encoding.
pub proof fn encoding_keeps_unreserved_text(s: Seq<char>)
    requires
        forall|i: int| 0 <= i < s.len() ==> (#[trigger] s[i]) <= '~' && is_unreserved(s[i] as u8),
    ensures
        percent_encoded(s) == s,
    decreases s.len(),
{
    lemma_ascii(s);
    is_ascii_chars_encode_utf8(s);
    if s.len() > 0 {
        let rest = s.skip(1);
        assert forall|i: int| 0 <= i < rest.len() implies (#[trigger] rest[i]) <= '~'
            && is_unreserved(rest[i] as u8) by {
            assert(rest[i] == s[i + 1]);
        }
        encoding_keeps_unreserved_text(rest);
        lemma_ascii(rest);
        is_ascii_chars_encode_utf8(rest);
        assert(encode_utf8(s).skip(1) =~= encode_utf8(rest));
        assert(encode_utf8(s)[0] == s[0] as u8);
        assert(percent_encoded(s) =~= s);
    } else {
        assert(percent_encoded(s) =~= s);
    }
}

/// A letter, a digit, `-`, `.`, `_` or `~` stands for itself; every other byte becomes three
/// characters, `%` and the two upper-case hexadecimal digits of the byte.
pub proof fn byte_is_kept_or_becomes_three_characters(b: u8)
    ensures
        ({
            let kept = {
                ||| 48 <= b <= 57
                ||| 65 <= b <= 90
                ||| 97 <= b <= 122
                ||| b == 45 || b == 46 || b == 95 || b == 126
            };
            let e = encoded_byte(b);
            &&& kept ==> e.len() == 1 && e[0] as int == b
            &&& !kept ==> {
                &&& e.len() == 3
                &&& e[0] == '%'
                &&& 48 <= e[1] as int <= 57 || 65 <= e[1] as int <= 70
                &&& 48 <= e[2] as int <= 57 || 65 <= e[2] as int <= 70
                &&& 16 * hex_value(e[1]) + hex_value(e[2]) == b
            }
        }),
{
    let hi = b as int / 16;
    let lo = b as int % 16;
    assert(0 <= hi < 16 && 0 <= lo < 16);
    assert((b as char) as int == b);
    assert(hex_digit(hi) as int == if hi < 10 {
        48 + hi
    } else {
        55 + hi
    });
    assert(hex_digit(lo) as int == if lo < 10 {
        48 + lo
    } else {
        55 + lo
    });
}

proof fn lemma_encode_utf8_add(a: Seq<char>, b: Seq<char>)
    ensures
        encode_utf8(a + b) == encode_utf8(a) + encode_utf8(b),
    decreases a.len(),
{
    if a.len() == 0 {
        assert(a + b =~= b);
        assert(encode_utf8(a) + encode_utf8(b) =~= encode_utf8(b));
    } else {
        assert((a + b).drop_first() =~= a.drop_first() + b);
        lemma_encode_utf8_add(a.drop_first(), b);
        assert(encode_utf8(a + b) =~= encode_utf8(a) + encode_utf8(b));
    }
}

/// The encoding of two byte sequences one behind the other.
pub proof fn bytes_are_encoded_one_by_one(a: Seq<u8>, b: Seq<u8>)
    ensures
        encoded_bytes(a + b) == encoded_bytes(a) + encoded_bytes(b),
    decreases a.len(),
{
    if a.len() == 0 {
        assert(a + b =~= b);
        assert(encoded_bytes(a) + encoded_bytes(b) =~= encoded_bytes(b));
    } else {
        assert((a + b).skip(1) =~= a.skip(1) + b);
        bytes_are_encoded_one_by_one(a.skip(1), b);
        assert(encoded_bytes(a + b) =~= encoded_bytes(a) + encoded_bytes(b));
    }
}

/// The encoding of two texts one behind the other is their encodings one behind the other, so no
/// character changes how another is encoded.
pub proof fn encoding_goes_piece_by_piece(a: Seq<char>, b: Seq<char>)
    ensures
        percent_encoded(a + b) == percent_encoded(a) + percent_encoded(b),
{
    lemma_encode_utf8_add(a, b);
    bytes_are_encoded_one_by_one(encode_utf8(a), encode_utf8(b));
}

/// Decoding an encoded text gives back its UTF-8 form, and so the text.
pub proof fn encoded_text_reads_back(s: Seq<char>)
    ensures
        decoded_bytes(percent_encoded(s)) == encode_utf8(s),
        decode_utf8(decoded_bytes(percent_encoded(s))) == s,
{
    decoding_undoes_encoding(encode_utf8(s));
    encode_utf8_decode_utf8(s);
}

} // verus!
