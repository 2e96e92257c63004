//! Hexadecimal text, as the signature and digest headers carry it.

use vstd::prelude::*;

verus! {

/// The value of one hexadecimal digit, in either case.
pub open spec fn hex_digit_value(c: u8) -> Option<u8> {
    if 0x30 <= c <= 0x39 {
        Some((c - 0x30) as u8)
    } else if 0x41 <= c <= 0x46 {
        Some((c - 0x41 + 10) as u8)
    } else if 0x61 <= c <= 0x66 {
        Some((c - 0x61 + 10) as u8)
    } else {
        None
    }
}

/// Whether every byte of `text` is a hexadecimal digit.
pub open spec fn all_hex_digits(text: Seq<u8>) -> bool {
    forall|i: int| 0 <= i < text.len() ==> hex_digit_value(#[trigger] text[i]) is Some
}

/// `text` without one leading `0x` or `0X`, if it has one.
pub open spec fn strip_hex_prefix(text: Seq<u8>) -> Seq<u8> {
    if text.len() >= 2 && text[0] == 0x30 && (text[1] == 0x78 || text[1] == 0x58) {
        text.skip(2)
    } else {
        text
    }
}

/// The bytes that an even number of hexadecimal digits spell, two digits to
/// the byte and the high digit first.
pub open spec fn hex_digits_value(digits: Seq<u8>) -> Seq<u8> {
    Seq::new(
        digits.len() / 2,
        |i: int| (16 * hex_digit_value(digits[2 * i]).unwrap() + hex_digit_value(digits[2 * i + 1]).unwrap()) as u8,
    )
}

/// What a hexadecimal text decodes to: its length must be even; one leading
/// `0x` or `0X` is dropped; what is left must be hexadecimal digits only.
pub open spec fn hex_decoded(text: Seq<u8>) -> Option<Seq<u8>> {
    if text.len() % 2 != 0 || !all_hex_digits(strip_hex_prefix(text)) {
        None
    } else {
        Some(hex_digits_value(strip_hex_prefix(text)))
    }
}

/// Calls `alloy::hex::decode`, which refuses a text of odd length, drops one
/// leading `0x` or `0X`, and then turns each pair of hexadecimal digits (upper
/// or lower case) into the byte `16 * high + low`, refusing any other
/// character. `hex_decoded` states exactly that.
#[verifier::external_body]
pub(crate) fn decode_hex(text: &[u8]) -> (decoded: Option<Vec<u8>>)
    ensures
        decoded is Some <==> hex_decoded(text@) is Some,
        decoded matches Some(bytes) ==> hex_decoded(text@) == Some(bytes@),
{
    alloy::hex::decode(text).ok()
}

/// `text` without any leading repetitions of the lower-case prefix `0x`.
pub open spec fn trim_hex_prefixes(text: Seq<u8>) -> Seq<u8>
    decreases text.len(),
{
    if text.len() >= 2 && text[0] == 0x30 && text[1] == 0x78 {
        trim_hex_prefixes(text.skip(2))
    } else {
        text
    }
}

/// Drops every leading repetition of `0x` from `text`.
pub fn trim_prefixes(text: &[u8]) -> (rest: &[u8])
    ensures
        rest@ == trim_hex_prefixes(text@),
{
    let mut start: usize = 0;
    assert(text@.skip(0) == text@);
    while text.len() - start >= 2 && text[start] == 0x30 && text[start + 1] == 0x78
        invariant
            0 <= start <= text@.len(),
            trim_hex_prefixes(text@) == trim_hex_prefixes(text@.skip(start as int)),
        decreases text@.len() - start,
    {
        assert(text@.skip(start as int).skip(2) == text@.skip(start + 2));
        start += 2;
    }
    let rest = vstd::slice::slice_subrange(text, start, text.len());
    assert(rest@ == text@.skip(start as int));
    rest
}

/// Decodes hexadecimal text that begins with a two-byte prefix: the first
/// two bytes are dropped, whatever they are, and the rest is decoded. A text
/// shorter than its prefix decodes to nothing.
pub fn unhexlify(text: &[u8]) -> (decoded: Option<Vec<u8>>)
    ensures
        decoded is Some <==> text@.len() >= 2 && hex_decoded(text@.skip(2)) is Some,
        decoded matches Some(bytes) ==> hex_decoded(text@.skip(2)) == Some(bytes@),
{
    if text.len() < 2 {
        return None;
    }
    let rest = vstd::slice::slice_subrange(text, 2, text.len());
    assert(rest@ == text@.skip(2));
    decode_hex(rest)
}

} // verus!
