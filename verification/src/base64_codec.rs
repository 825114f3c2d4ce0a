//! The standard, padded base64 alphabet of the `base64` crate, behind trusted items.
//! Encoding is stated in full (RFC 4648, section 4); decoding is named.

use base64::engine::general_purpose::STANDARD;
use base64::Engine;
use vstd::prelude::*;
use vstd::utf8::{encode_utf8, is_ascii_chars, is_ascii_chars_encode_utf8};

verus! {

/// What `STANDARD.decode` returns for the given text: `None` where it reports an error.
pub uninterp spec fn base64_standard_decoding(text: Seq<u8>) -> Option<Seq<u8>>;

/// The character of a 6-bit value in the standard alphabet.
pub open spec fn base64_digit(v: int) -> char {
    if v < 26 {
        (65 + v) as char
    } else if v < 52 {
        (97 + v - 26) as char
    } else if v < 62 {
        (48 + v - 52) as char
    } else if v == 62 {
        '+'
    } else {
        '/'
    }
}

/// The standard base64 text of `data`: each group of three bytes gives four characters of
/// six bits each; a final group of one or two bytes is padded with `=` to four characters.
pub open spec fn base64_standard_encoding(data: Seq<u8>) -> Seq<char>
    decreases data.len(),
{
    if data.len() == 0 {
        seq![]
    } else if data.len() == 1 {
        let a = data[0] as int;
        seq![base64_digit(a / 4), base64_digit((a % 4) * 16), '=', '=']
    } else if data.len() == 2 {
        let a = data[0] as int;
        let b = data[1] as int;
        seq![base64_digit(a / 4), base64_digit((a % 4) * 16 + b / 16), base64_digit((b % 16) * 4), '=']
    } else {
        let a = data[0] as int;
        let b = data[1] as int;
        let c = data[2] as int;
        seq![
            base64_digit(a / 4),
            base64_digit((a % 4) * 16 + b / 16),
            base64_digit((b % 16) * 4 + c / 64),
            base64_digit(c % 64),
        ] + base64_standard_encoding(data.skip(3))
    }
}

/// A character of the standard base64 alphabet, padding included.
pub open spec fn is_base64_char(c: char) -> bool {
    ('A' <= c && c <= 'Z') || ('a' <= c && c <= 'z') || ('0' <= c && c <= '9') || c == '+' || c
        == '/' || c == '='
}

/// The length of padded base64 text for `n` input bytes.
pub open spec fn base64_encoded_len(n: nat) -> nat {
    (n / 3) * 4 + if n % 3 > 0 {
        4nat
    } else {
        0nat
    }
}

/// The number of `=` characters that end the base64 text of `n` bytes.
pub open spec fn base64_padding_len(n: nat) -> nat {
    if n % 3 == 1 {
        2
    } else if n % 3 == 2 {
        1
    } else {
        0
    }
}

/// The bytes held by an optional vector.
pub open spec fn opt_bytes(v: Option<Vec<u8>>) -> Option<Seq<u8>> {
    match v {
        Some(b) => Some(b@),
        None => None,
    }
}

proof fn lemma_base64_digit(v: int)
    requires
        0 <= v < 64,
    ensures
        is_base64_char(base64_digit(v)),
        base64_digit(v) != '=',
{
}

/// Law: base64 text has `base64_encoded_len` characters, all of the alphabet, and the `=`
/// characters are exactly the last `base64_padding_len` ones.
pub proof fn lemma_base64_encoding_shape(data: Seq<u8>)
    ensures
        base64_standard_encoding(data).len() == base64_encoded_len(data.len()),
        forall|i: int|
            0 <= i < base64_standard_encoding(data).len() ==> is_base64_char(
                #[trigger] base64_standard_encoding(data)[i],
            ),
        forall|i: int|
            0 <= i < base64_standard_encoding(data).len() ==> (#[trigger] base64_standard_encoding(data)[i]
                == '=' <==> i >= base64_encoded_len(data.len()) - base64_padding_len(data.len())),
    decreases data.len(),
{
    let e = base64_standard_encoding(data);
    if data.len() == 0 {
    } else if data.len() == 1 {
        let a = data[0] as int;
        lemma_base64_digit(a / 4);
        lemma_base64_digit((a % 4) * 16);
    } else if data.len() == 2 {
        let a = data[0] as int;
        let b = data[1] as int;
        lemma_base64_digit(a / 4);
        lemma_base64_digit((a % 4) * 16 + b / 16);
        lemma_base64_digit((b % 16) * 4);
    } else {
        let a = data[0] as int;
        let b = data[1] as int;
        let c = data[2] as int;
        lemma_base64_digit(a / 4);
        lemma_base64_digit((a % 4) * 16 + b / 16);
        lemma_base64_digit((b % 16) * 4 + c / 64);
        lemma_base64_digit(c % 64);
        let rest = data.skip(3);
        lemma_base64_encoding_shape(rest);
        let head = seq![
            base64_digit(a / 4),
            base64_digit((a % 4) * 16 + b / 16),
            base64_digit((b % 16) * 4 + c / 64),
            base64_digit(c % 64),
        ];
        let tail = base64_standard_encoding(rest);
        assert(e == head + tail);
        assert(rest.len() == data.len() - 3);
        assert(base64_encoded_len(data.len()) == base64_encoded_len(rest.len()) + 4);
        assert(base64_padding_len(data.len()) == base64_padding_len(rest.len()));
        assert forall|i: int| 0 <= i < e.len() implies is_base64_char(#[trigger] e[i]) && (e[i] == '='
            <==> i >= base64_encoded_len(data.len()) - base64_padding_len(data.len())) by {
            if i < 4 {
                assert(e[i] == head[i]);
                assert(base64_padding_len(data.len()) <= 2);
            } else {
                assert(e[i] == tail[i - 4]);
            }
        }
    }
}

/// Calls `base64::Engine::encode` on the `STANDARD` engine (padded standard alphabet).
/// The contract claims that the result is `base64_standard_encoding` of the input, as the
/// crate documents for the standard padded engine, and that `STANDARD.decode` of its UTF-8
/// bytes gives the input back. The call panics where the output length overflows `usize`,
/// which `requires` leaves out.
#[verifier::external_body]
pub(crate) fn base64_encode(data: &[u8]) -> (text: String)
    requires
        base64_encoded_len(data@.len()) <= usize::MAX,
    ensures
        text@ == base64_standard_encoding(data@),
        base64_standard_decoding(encode_utf8(text@)) == Some(data@),
{
    STANDARD.encode(data)
}

/// The UTF-8 bytes of base64 text are its characters, one byte each, so the text of `data`
/// has at least as many bytes as `data`.
pub proof fn lemma_base64_text_bytes(data: Seq<u8>)
    ensures
        encode_utf8(base64_standard_encoding(data)).len() == base64_standard_encoding(data).len(),
        encode_utf8(base64_standard_encoding(data)).len() >= data.len(),
        encode_utf8(base64_standard_encoding(data)).len() % 4 == 0,
{
    let e = base64_standard_encoding(data);
    lemma_base64_encoding_shape(data);
    assert(is_ascii_chars(e)) by {
        assert forall|i: int| 0 <= i < e.len() implies '\0' <= #[trigger] e[i] <= '\u{7f}' by {
            assert(is_base64_char(e[i]));
        }
    }
    is_ascii_chars_encode_utf8(e);
}

/// Calls `base64::Engine::decode` on the `STANDARD` engine; an error is read as `None`.
/// The result is named by `base64_standard_decoding`. The engine requires canonical padding
/// and no trailing bits (`GeneralPurposeConfig::new`), so, as its source shows, it accepts
/// exactly the texts that `STANDARD.encode` writes, and gives back the bytes they encode.
#[verifier::external_body]
pub(crate) fn base64_decode(text: &[u8]) -> (data: Option<Vec<u8>>)
    ensures
        opt_bytes(data) == base64_standard_decoding(text@),
        data matches Some(d) ==> encode_utf8(base64_standard_encoding(d@)) == text@,
        (exists|d: Seq<u8>| encode_utf8(#[trigger] base64_standard_encoding(d)) == text@) ==> data is Some,
{
    STANDARD.decode(text).ok()
}

} // verus!
