//! Character-level helpers: pushing onto a `String`, decimal rendering of integers,
//! UTF-8 decoding of owned bytes, and facts about the UTF-8 encoding of text.

use vstd::prelude::*;
use vstd::utf8::{
    decode_utf8, encode_scalar, encode_utf8, has_width_1_encoding, has_width_2_encoding,
    has_width_3_encoding, valid_utf8,
};

verus! {

/// Calls `String::push`: appends one character.
#[verifier::external_body]
pub(crate) fn string_push(s: &mut String, c: char)
    ensures
        final(s)@ == old(s)@.push(c),
{
    s.push(c);
}

/// Calls `String::from_utf8`; an error is read as `None`. As std documents, the call
/// succeeds exactly on valid UTF-8, and the text then holds the decoded characters.
#[verifier::external_body]
pub(crate) fn string_from_utf8(bytes: Vec<u8>) -> (text: Option<String>)
    ensures
        text is Some <==> valid_utf8(bytes@),
        text matches Some(t) ==> t@ == decode_utf8(bytes@),
{
    String::from_utf8(bytes).ok()
}

/// The character of the decimal digit `d`.
pub open spec fn digit_char(d: nat) -> char {
    (48 + d) as char
}

/// The decimal digits of `n`, most significant first, without leading zeros.
pub open spec fn decimal_digits(n: nat) -> Seq<char>
    decreases n,
{
    if n < 10 {
        seq![digit_char(n)]
    } else {
        decimal_digits(n / 10).push(digit_char(n % 10))
    }
}

/// The decimal text of an integer, with a leading `-` for negative values.
pub open spec fn decimal_text(n: int) -> Seq<char> {
    if n < 0 {
        seq!['-'] + decimal_digits((-n) as nat)
    } else {
        decimal_digits(n as nat)
    }
}

fn push_decimal_digits(s: &mut String, n: u64)
    ensures
        final(s)@ == old(s)@ + decimal_digits(n as nat),
    decreases n,
{
    if n >= 10 {
        push_decimal_digits(s, n / 10);
    }
    let d: u8 = (n % 10) as u8;
    let c: char = (48u8 + d) as char;
    string_push(s, c);
    proof {
        assert(c == digit_char((n % 10) as nat));
    }
}

/// Appends the decimal text of `n` to `s`.
pub fn push_decimal(s: &mut String, n: i64)
    ensures
        final(s)@ == old(s)@ + decimal_text(n as int),
{
    if n < 0 {
        string_push(s, '-');
        let magnitude: u64 = ((-(n + 1)) as u64) + 1;
        push_decimal_digits(s, magnitude);
        assert(final(s)@ =~= old(s)@ + decimal_text(n as int));
    } else {
        push_decimal_digits(s, n as u64);
    }
}

/// The UTF-8 encoding of a concatenation is the concatenation of the encodings.
pub proof fn lemma_encode_utf8_concat(a: Seq<char>, b: Seq<char>)
    ensures
        encode_utf8(a + b) == encode_utf8(a) + encode_utf8(b),
    decreases a.len(),
{
    if a.len() == 0 {
        assert(a + b =~= b);
    } else {
        assert((a + b).drop_first() =~= a.drop_first() + b);
        lemma_encode_utf8_concat(a.drop_first(), b);
        assert(encode_utf8(a + b) =~= encode_utf8(a) + encode_utf8(b));
    }
}

/// The UTF-8 encoding of one character holds the byte 36 only when the character is `$`.
proof fn lemma_encode_scalar_no_dollar(c: char)
    requires
        c != '$',
    ensures
        forall|j: int| 0 <= j < encode_scalar(c as u32).len() ==> #[trigger] encode_scalar(c as u32)[j] != 36u8,
{
    let u: u32 = c as u32;
    if has_width_1_encoding(u) {
        assert(u != 36u32);
        assert(u <= 0x7F ==> u != 36u32 ==> (u & 0x7F) as u8 != 36u8) by (bit_vector);
    } else if has_width_2_encoding(u) {
        assert((0xC0u8 | ((u >> 6) & 0x1F) as u8) != 36u8 && (0x80u8 | (u & 0x3F) as u8) != 36u8)
            by (bit_vector);
    } else if has_width_3_encoding(u) {
        assert((0xE0u8 | ((u >> 12) & 0x0F) as u8) != 36u8 && (0x80u8 | ((u >> 6) & 0x3F) as u8)
            != 36u8 && (0x80u8 | (u & 0x3F) as u8) != 36u8) by (bit_vector);
    } else {
        assert((0xF0u8 | ((u >> 18) & 0x7) as u8) != 36u8 && (0x80u8 | ((u >> 12) & 0x3F) as u8)
            != 36u8 && (0x80u8 | ((u >> 6) & 0x3F) as u8) != 36u8 && (0x80u8 | (u & 0x3F) as u8)
            != 36u8) by (bit_vector);
    }
}

/// Text without `$` encodes to UTF-8 bytes without the byte 36.
pub proof fn lemma_encode_utf8_no_dollar(chars: Seq<char>)
    requires
        forall|i: int| 0 <= i < chars.len() ==> #[trigger] chars[i] != '$',
    ensures
        forall|j: int| 0 <= j < encode_utf8(chars).len() ==> #[trigger] encode_utf8(chars)[j] != 36u8,
    decreases chars.len(),
{
    if chars.len() > 0 {
        assert(chars[0] != '$');
        lemma_encode_scalar_no_dollar(chars[0]);
        lemma_encode_utf8_no_dollar(chars.drop_first());
        let head = encode_scalar(chars[0] as u32);
        let tail = encode_utf8(chars.drop_first());
        assert(encode_utf8(chars) == head + tail);
        assert forall|j: int| 0 <= j < encode_utf8(chars).len() implies #[trigger] encode_utf8(chars)[j] != 36u8 by {
            if j < head.len() {
                assert(encode_utf8(chars)[j] == head[j]);
            } else {
                assert(encode_utf8(chars)[j] == tail[j - head.len()]);
            }
        }
    }
}

} // verus!
