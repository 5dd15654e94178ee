//! Byte-level decoding: percent escapes, UTF-8 and base64.

use crate::text::{char_is_whitespace, chars_of, is_white_space, string_of};
use vstd::prelude::*;
use vstd::string::StrSliceExecFns;
use vstd::string::StringSliceAdditionalSpecFns;
use vstd::utf8::{decode_utf8, encode_utf8, valid_utf8};

verus! {

/// The text that `String::from_utf8_lossy` reads from bytes: each ill-formed
/// sequence becomes U+FFFD.
pub uninterp spec fn utf8_lossy(bytes: Seq<u8>) -> Seq<char>;

/// What the standard base64 engine (`base64::engine::general_purpose::STANDARD`)
/// decodes from its input, or `None` where it reports an error.
pub uninterp spec fn base64_standard(input: Seq<u8>) -> Option<Seq<u8>>;

/// `String::from_utf8_lossy`: the text named by [`utf8_lossy`]; bytes that
/// are well-formed UTF-8 give the text that they encode.
#[verifier::external_body]
pub(crate) fn lossy_text(bytes: &[u8]) -> (text: String)
    ensures
        text@ == utf8_lossy(bytes@),
        valid_utf8(bytes@) ==> text@ == decode_utf8(bytes@),
{
    String::from_utf8_lossy(bytes).into_owned()
}

/// `String::from_utf8`: the text that the bytes encode, if they are
/// well-formed UTF-8.
#[verifier::external_body]
pub(crate) fn strict_text(bytes: Vec<u8>) -> (text: Option<String>)
    ensures
        match text {
            Some(t) => valid_utf8(bytes@) && t@ == decode_utf8(bytes@),
            None => !valid_utf8(bytes@),
        },
{
    String::from_utf8(bytes).ok()
}

/// `Engine::decode` of the standard base64 engine: the bytes that
/// [`base64_standard`] names, and nothing where the engine reports an error.
#[verifier::external_body]
pub(crate) fn decode_standard(input: &[u8]) -> (out: Option<Vec<u8>>)
    ensures
        match out {
            Some(bytes) => base64_standard(input@) == Some(bytes@),
            None => base64_standard(input@) is None,
        },
{
    base64::Engine::decode(&base64::engine::general_purpose::STANDARD, input).ok()
}

/// The text that bytes are read as: the text that they encode where they
/// are well-formed UTF-8, and else what [`utf8_lossy`] names.
pub open spec fn lossy_decoded(bytes: Seq<u8>) -> Seq<char> {
    if valid_utf8(bytes) {
        decode_utf8(bytes)
    } else {
        utf8_lossy(bytes)
    }
}

/// Reads bytes as UTF-8, with U+FFFD for what is ill-formed.
pub fn decode_lossy(bytes: &[u8]) -> (text: String)
    ensures
        text@ == lossy_decoded(bytes@),
{
    lossy_text(bytes)
}

/// The value of a hexadecimal digit.
pub open spec fn hex_value(b: u8) -> Option<u8> {
    if 0x30 <= b <= 0x39 {
        Some((b - 0x30) as u8)
    } else if 0x61 <= b <= 0x66 {
        Some((b - 0x61 + 10) as u8)
    } else if 0x41 <= b <= 0x46 {
        Some((b - 0x41 + 10) as u8)
    } else {
        None
    }
}

/// True when `bytes` begins with `%` and two hexadecimal digits.
pub open spec fn starts_with_escape(bytes: Seq<u8>) -> bool {
    bytes.len() >= 3 && bytes[0] == 0x25 && hex_value(bytes[1]) is Some && hex_value(
        bytes[2],
    ) is Some
}

/// `bytes` with every `%` that two hexadecimal digits follow replaced, with
/// them, by the byte they write. Any other byte stands for itself.
pub open spec fn percent_decoded(bytes: Seq<u8>) -> Seq<u8>
    decreases bytes.len(),
{
    if bytes.len() == 0 {
        bytes
    } else if starts_with_escape(bytes) {
        seq![(hex_value(bytes[1])->0 * 16 + hex_value(bytes[2])->0) as u8] + percent_decoded(
            bytes.skip(3),
        )
    } else {
        seq![bytes[0]] + percent_decoded(bytes.skip(1))
    }
}

fn hex_digit(b: u8) -> (v: Option<u8>)
    ensures
        v == hex_value(b),
        v matches Some(d) ==> d < 16,
{
    if 0x30 <= b && b <= 0x39 {
        Some(b - 0x30)
    } else if 0x61 <= b && b <= 0x66 {
        Some(b - 0x61 + 10)
    } else if 0x41 <= b && b <= 0x46 {
        Some(b - 0x41 + 10)
    } else {
        None
    }
}

/// Resolves the percent escapes of a byte text.
pub fn percent_decode_bytes(bytes: &[u8]) -> (out: Vec<u8>)
    ensures
        out@ == percent_decoded(bytes@),
{
    let mut out: Vec<u8> = Vec::new();
    let mut i: usize = 0;
    assert(bytes@.skip(0) =~= bytes@);
    assert(out@ + percent_decoded(bytes@) =~= percent_decoded(bytes@));
    while i < bytes.len()
        invariant
            i <= bytes.len(),
            out@ + percent_decoded(bytes@.skip(i as int)) == percent_decoded(bytes@),
        decreases bytes.len() - i,
    {
        let ghost rest = bytes@.skip(i as int);
        let ghost before = out@;
        let mut step: usize = 1;
        let mut byte: u8 = bytes[i];
        if byte == 0x25 && bytes.len() - i >= 3 {
            match (hex_digit(bytes[i + 1]), hex_digit(bytes[i + 2])) {
                (Some(hi), Some(lo)) => {
                    byte = hi * 16 + lo;
                    step = 3;
                },
                _ => {},
            }
        }
        out.push(byte);
        proof {
            assert(rest.skip(step as int) =~= bytes@.skip(i + step));
            assert(percent_decoded(rest) == seq![byte] + percent_decoded(rest.skip(step as int)));
            assert(out@ + percent_decoded(bytes@.skip(i + step)) =~= before + percent_decoded(
                rest,
            ));
        }
        i += step;
    }
    assert(bytes@.skip(bytes.len() as int) =~= Seq::<u8>::empty());
    assert(out@ + Seq::<u8>::empty() =~= out@);
    out
}

/// The text that a percent-encoded text stands for.
pub open spec fn percent_decoded_text(input: Seq<char>) -> Seq<char> {
    lossy_decoded(percent_decoded(encode_utf8(input)))
}

/// Resolves the percent escapes of `input` and reads the bytes as UTF-8,
/// with U+FFFD for what is ill-formed.
pub fn percent_decode(input: &str) -> (out: String)
    ensures
        out@ == percent_decoded_text(input@),
        valid_utf8(percent_decoded(encode_utf8(input@))) ==> out@ == decode_utf8(
            percent_decoded(encode_utf8(input@)),
        ),
{
    let bytes = percent_decode_bytes(input.as_bytes());
    decode_lossy(bytes.as_slice())
}

/// A character of the URL-safe base64 alphabet as its standard counterpart.
pub open spec fn standard_symbol(c: char) -> char {
    if c == '-' {
        '+'
    } else if c == '_' {
        '/'
    } else {
        c
    }
}

/// `s` without white space, in the standard base64 alphabet.
pub open spec fn base64_symbols(s: Seq<char>) -> Seq<char> {
    s.filter(|c: char| !is_white_space(c)).map_values(|c: char| standard_symbol(c))
}

/// How many `=` bring a text of `len` bytes to a multiple of four.
pub open spec fn padding_needed(len: nat) -> nat {
    ((4 - len % 4) % 4) as nat
}

/// `bytes` followed by as many `=` as bring its length to a multiple of four.
pub open spec fn padded(bytes: Seq<u8>) -> Seq<u8> {
    bytes + Seq::new(padding_needed(bytes.len()), |i: int| 0x3du8)
}

/// What a base64 text decodes to once white space is dropped, the URL-safe
/// alphabet is mapped to the standard one and the padding is completed.
pub open spec fn base64_decoded(input: Seq<char>) -> Option<Seq<u8>> {
    base64_standard(padded(encode_utf8(base64_symbols(input))))
}

/// Decodes base64 leniently: white space is ignored, `-` and `_` are read as
/// `+` and `/`, and missing padding is supplied.
pub fn decode_base64(input: &str) -> (out: Option<Vec<u8>>)
    ensures
        match out {
            Some(bytes) => base64_decoded(input@) == Some(bytes@),
            None => base64_decoded(input@) is None,
        },
{
    let chars = chars_of(input);
    decode_base64_chars(chars.as_slice())
}

/// [`decode_base64`] on a run of characters.
pub fn decode_base64_chars(chars: &[char]) -> (out: Option<Vec<u8>>)
    ensures
        match out {
            Some(bytes) => base64_decoded(chars@) == Some(bytes@),
            None => base64_decoded(chars@) is None,
        },
{
    let ghost keep = |c: char| !is_white_space(c);
    let ghost standard = |c: char| standard_symbol(c);
    let mut symbols: Vec<char> = Vec::new();
    let mut i: usize = 0;
    while i < chars.len()
        invariant
            i <= chars.len(),
            keep == (|c: char| !is_white_space(c)),
            standard == (|c: char| standard_symbol(c)),
            symbols@ == chars@.take(i as int).filter(keep).map_values(standard),
        decreases chars.len() - i,
    {
        let c = chars[i];
        proof {
            assert(chars@.take(i + 1) =~= chars@.take(i as int).push(c));
            chars@.take(i as int).lemma_filter_push(c, keep);
        }
        if !char_is_whitespace(c) {
            let symbol = if c == '-' {
                '+'
            } else if c == '_' {
                '/'
            } else {
                c
            };
            symbols.push(symbol);
            assert(symbols@ =~= chars@.take(i + 1).filter(keep).map_values(standard));
        }
        i += 1;
    }
    assert(chars@.take(chars.len() as int) =~= chars@);
    let text = string_of(symbols.as_slice());
    let mut bytes = text.as_str().as_bytes_vec();
    let ghost unpadded = bytes@;
    while bytes.len() % 4 != 0
        invariant
            unpadded.len() <= bytes.len() <= unpadded.len() + padding_needed(unpadded.len()),
            bytes@ =~= unpadded + Seq::new(
                (bytes.len() - unpadded.len()) as nat,
                |i: int| 0x3du8,
            ),
        decreases unpadded.len() + padding_needed(unpadded.len()) - bytes.len(),
    {
        bytes.push(0x3d);
    }
    assert(bytes@ =~= padded(unpadded));
    decode_standard(bytes.as_slice())
}

} // verus!
