//! The four request headers: what each must hold, and the status that a
//! request is refused with where one is absent, unreadable or stale.

use vstd::prelude::*;

use crate::error::{AuthError, StatusCode};
use crate::hex::{decode_hex, hex_decoded, trim_hex_prefixes, trim_prefixes};
use crate::types::{PaymentChannel, Signature};

verus! {

/// For how many seconds after its timestamp a request is accepted.
pub const FRESHNESS_WINDOW: u64 = 300;

/// What one decimal digit counts for; a byte below `0` counts for nothing.
pub open spec fn decimal_digit_value(c: u8) -> nat {
    if c >= 0x30 {
        (c - 0x30) as nat
    } else {
        0
    }
}

/// The number that a row of decimal digits spells.
pub open spec fn decimal_value(digits: Seq<u8>) -> nat
    decreases digits.len(),
{
    if digits.len() == 0 {
        0
    } else {
        decimal_value(digits.drop_last()) * 10 + decimal_digit_value(digits.last())
    }
}

/// Whether every byte of `text` is a decimal digit.
pub open spec fn all_decimal_digits(text: Seq<u8>) -> bool {
    forall|i: int| 0 <= i < text.len() ==> 0x30 <= #[trigger] text[i] <= 0x39
}

/// `text` without one leading `+`, if it has one.
pub open spec fn unsigned_digits(text: Seq<u8>) -> Seq<u8> {
    if text.len() > 0 && text[0] == 0x2b {
        text.skip(1)
    } else {
        text
    }
}

/// The timestamp that a header value spells: decimal digits, at least one,
/// after at most one `+`, for a number of seconds that fits 64 bits.
pub open spec fn parsed_timestamp(text: Seq<u8>) -> Option<u64> {
    let digits = unsigned_digits(text);
    if digits.len() == 0 || !all_decimal_digits(digits) || decimal_value(digits) > u64::MAX {
        None
    } else {
        Some(decimal_value(digits) as u64)
    }
}

/// A row of digits spells at least what any of its beginnings spells.
pub proof fn lemma_decimal_value_grows(digits: Seq<u8>, k: int)
    requires
        0 <= k <= digits.len(),
    ensures
        decimal_value(digits.take(k)) <= decimal_value(digits),
    decreases digits.len() - k,
{
    if k == digits.len() {
        assert(digits.take(k) == digits);
    } else {
        lemma_decimal_value_grows(digits, k + 1);
        assert(digits.take(k + 1).drop_last() == digits.take(k));
    }
}

/// Reads the timestamp that a header value spells.
pub fn parse_timestamp(text: &[u8]) -> (timestamp: Option<u64>)
    ensures
        timestamp == parsed_timestamp(text@),
{
    let start: usize = if text.len() > 0 && text[0] == 0x2b {
        1
    } else {
        0
    };
    let ghost digits = text@.skip(start as int);
    assert(text@.skip(0) == text@);
    assert(digits == unsigned_digits(text@));
    if text.len() == start {
        return None;
    }
    let mut value: u64 = 0;
    let mut i: usize = start;
    assert(digits.take(0) == Seq::<u8>::empty());
    while i < text.len()
        invariant
            start <= i <= text@.len(),
            digits == text@.skip(start as int),
            digits == unsigned_digits(text@),
            digits.len() > 0,
            all_decimal_digits(digits.take(i - start)),
            value == decimal_value(digits.take(i - start)),
        decreases text@.len() - i,
    {
        let c = text[i];
        let ghost seen = digits.take(i - start + 1);
        assert(seen.drop_last() == digits.take(i - start));
        assert(seen.last() == c);
        assert(digits[i - start] == c);
        if c < 0x30 || c > 0x39 {
            return None;
        }
        proof {
            lemma_decimal_value_grows(digits, i - start + 1);
        }
        let shifted = match value.checked_mul(10) {
            Some(shifted) => shifted,
            None => {
                return None;
            },
        };
        value = match shifted.checked_add((c - 0x30) as u64) {
            Some(sum) => sum,
            None => {
                return None;
            },
        };
        i += 1;
    }
    assert(digits.take(i - start) == digits);
    Some(value)
}

/// Whether a request stamped `timestamp` is still accepted at `now`. A
/// timestamp ahead of the clock is.
pub open spec fn is_fresh(now: u64, timestamp: u64) -> bool {
    now - timestamp <= FRESHNESS_WINDOW
}

/// Refuses a request stamped `timestamp` that arrives at `now` as expired
/// where it is no longer fresh.
pub fn check_freshness(now: u64, timestamp: u64) -> (result: Result<(), AuthError>)
    ensures
        result is Ok <==> is_fresh(now, timestamp),
        result matches Err(error) ==> error == AuthError::Expired,
{
    if now <= timestamp || now - timestamp <= FRESHNESS_WINDOW {
        Ok(())
    } else {
        Err(AuthError::Expired)
    }
}

/// Whether a header value is text: visible ASCII, spaces and tabs only.
pub open spec fn is_header_text(value: Seq<u8>) -> bool {
    forall|i: int|
        0 <= i < value.len() ==> (0x20 <= #[trigger] value[i] < 0x7f || value[i] == 0x09)
}

/// Whether a header value is text.
pub fn check_header_text(value: &[u8]) -> (text: bool)
    ensures
        text == is_header_text(value@),
{
    let mut i: usize = 0;
    while i < value.len()
        invariant
            0 <= i <= value@.len(),
            is_header_text(value@.take(i as int)),
        decreases value@.len() - i,
    {
        let c = value[i];
        if !((0x20 <= c && c < 0x7f) || c == 0x09) {
            return false;
        }
        assert forall|j: int| 0 <= j < i + 1 implies (0x20 <= #[trigger] value@.take(i + 1)[j]
            < 0x7f || value@.take(i + 1)[j] == 0x09) by {
            if j < i {
                assert(value@.take(i as int)[j] == value@[j]);
            }
        }
        i += 1;
    }
    assert(value@.take(i as int) == value@);
    true
}

/// The signature that a header value spells: hexadecimal text for exactly
/// 65 bytes, after any number of `0x` prefixes.
pub open spec fn parsed_signature(value: Seq<u8>) -> Option<Seq<u8>> {
    match hex_decoded(trim_hex_prefixes(value)) {
        Some(bytes) => if bytes.len() == 65 {
            Some(bytes)
        } else {
            None
        },
        None => None,
    }
}

/// Reads the signature that a header value spells.
pub fn parse_signature(value: &[u8]) -> (signature: Option<Signature>)
    ensures
        signature is Some <==> parsed_signature(value@) is Some,
        signature matches Some(s) ==> parsed_signature(value@) == Some(s@),
{
    match decode_hex(trim_prefixes(value)) {
        Some(bytes) => Signature::from_slice(bytes.as_slice()),
        None => None,
    }
}

/// The payment header, as the transport layer hands it over.
#[derive(Debug, Clone, Copy, PartialEq, Eq)]
pub enum PaymentHeader {
    /// The request has no such header.
    Missing,
    /// The header is there, but it is not text or not a channel in JSON.
    Malformed,
    /// The channel state that the header declares.
    Channel(PaymentChannel),
}

/// The headers of one request that the pipeline reads, each as the bytes of
/// its value, or `None` where the request does not have it.
#[derive(Debug, Clone)]
pub struct RequestHeaders {
    /// `X-Timestamp`: when the client made the request.
    pub timestamp: Option<Vec<u8>>,
    /// `X-Signature`: the signature over the digest.
    pub signature: Option<Vec<u8>>,
    /// `X-Message`: the digest that was signed.
    pub message: Option<Vec<u8>>,
    /// `X-Payment`: the channel state that the client declares.
    pub payment: PaymentHeader,
}

/// What the headers of an acceptable request hold.
#[derive(Debug, Clone)]
pub struct ParsedHeaders {
    /// When the client made the request.
    pub timestamp: u64,
    /// The signature over the digest.
    pub signature: Signature,
    /// The digest that was signed.
    pub message: Vec<u8>,
    /// The channel state that the client declares.
    pub payment_channel: PaymentChannel,
}

/// The timestamp that the headers carry, if it can be read.
pub open spec fn headers_timestamp(headers: RequestHeaders) -> Option<u64> {
    match headers.timestamp {
        Some(value) => parsed_timestamp(value@),
        None => None,
    }
}

/// The status that a request is refused with on its headers alone, in the
/// order in which they are looked at; `None` where the headers are in order.
pub open spec fn headers_rejection(headers: RequestHeaders, now: u64) -> Option<StatusCode> {
    if headers_timestamp(headers) is None {
        Some(StatusCode::BadRequest)
    } else if !is_fresh(now, headers_timestamp(headers).unwrap()) {
        Some(AuthError::Expired.status())
    } else if headers.signature is None {
        Some(StatusCode::Unauthorized)
    } else if !is_header_text(headers.signature.unwrap()@) {
        Some(StatusCode::BadRequest)
    } else if headers.message is None {
        Some(StatusCode::Unauthorized)
    } else if !is_header_text(headers.message.unwrap()@) {
        Some(StatusCode::BadRequest)
    } else if headers.payment is Missing {
        Some(StatusCode::Unauthorized)
    } else if headers.payment is Malformed {
        Some(StatusCode::BadRequest)
    } else if parsed_signature(headers.signature.unwrap()@) is None {
        Some(StatusCode::BadRequest)
    } else if hex_decoded(headers.message.unwrap()@) is None {
        Some(StatusCode::BadRequest)
    } else {
        None
    }
}

/// Reads the four headers of a request that arrives at `now` (seconds since
/// the Unix epoch), or says with which status it is refused.
pub fn parse_headers(headers: &RequestHeaders, now: u64) -> (result: Result<
    ParsedHeaders,
    StatusCode,
>)
    ensures
        result is Ok <==> headers_rejection(*headers, now) is None,
        result matches Err(status) ==> headers_rejection(*headers, now) == Some(status),
        result matches Ok(parsed) ==> {
            &&& Some(parsed.timestamp) == headers_timestamp(*headers)
            &&& Some(parsed.signature@) == parsed_signature(headers.signature.unwrap()@)
            &&& Some(parsed.message@) == hex_decoded(headers.message.unwrap()@)
            &&& headers.payment == PaymentHeader::Channel(parsed.payment_channel)
        },
{
    let timestamp = match &headers.timestamp {
        Some(value) => match parse_timestamp(value.as_slice()) {
            Some(timestamp) => timestamp,
            None => {
                return Err(StatusCode::BadRequest);
            },
        },
        None => {
            return Err(StatusCode::BadRequest);
        },
    };
    match check_freshness(now, timestamp) {
        Ok(_) => {},
        Err(error) => {
            return Err(error.status_code());
        },
    }
    let signature_text = match &headers.signature {
        Some(value) => value,
        None => {
            return Err(StatusCode::Unauthorized);
        },
    };
    if !check_header_text(signature_text.as_slice()) {
        return Err(StatusCode::BadRequest);
    }
    let message_text = match &headers.message {
        Some(value) => value,
        None => {
            return Err(StatusCode::Unauthorized);
        },
    };
    if !check_header_text(message_text.as_slice()) {
        return Err(StatusCode::BadRequest);
    }
    let payment_channel = match headers.payment {
        PaymentHeader::Missing => {
            return Err(StatusCode::Unauthorized);
        },
        PaymentHeader::Malformed => {
            return Err(StatusCode::BadRequest);
        },
        PaymentHeader::Channel(payment_channel) => payment_channel,
    };
    let signature = match parse_signature(signature_text.as_slice()) {
        Some(signature) => signature,
        None => {
            return Err(StatusCode::BadRequest);
        },
    };
    let message = match decode_hex(message_text.as_slice()) {
        Some(message) => message,
        None => {
            return Err(StatusCode::BadRequest);
        },
    };
    Ok(ParsedHeaders { timestamp, signature, message, payment_channel })
}

} // verus!
