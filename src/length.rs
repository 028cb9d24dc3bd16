//! The biased base-253 length header in front of every backend frame.
//!
//! A digit `d` in `0..253` is stored as the byte `d + 1`; the two header bytes
//! hold the most significant digit first.
use vstd::prelude::*;

verus! {

/// The largest payload length that a two-byte header can state: `253 * 253 - 1`.
pub const MAX_FRAME_LEN: usize = 64008;

/// The numeric value of one stored header byte: the byte minus one, with the
/// padding byte `254` standing for zero.
pub open spec fn digit_of(b: u8) -> int {
    if b == 254 {
        0
    } else {
        b as int - 1
    }
}

/// The value that a header `[hi, lo]` encodes, before any range check.
pub open spec fn header_value(hi: u8, lo: u8) -> int {
    digit_of(hi) * 253 + digit_of(lo)
}

/// A payload length that a header may state.
pub open spec fn valid_len(n: int) -> bool {
    0 <= n <= MAX_FRAME_LEN
}

/// A header that states a length: neither byte is the reserved `0x00`, and
/// the value lies in `0..=MAX_FRAME_LEN`.
pub open spec fn header_ok(hi: u8, lo: u8) -> bool {
    hi != 0 && lo != 0 && valid_len(header_value(hi, lo))
}

/// The two header bytes that encode `n`, most significant digit first.
pub open spec fn header_of(n: int) -> (u8, u8) {
    ((n / 253 + 1) as u8, (n % 253 + 1) as u8)
}

/// Relies on eolib::data::decode_number: for a single byte it returns the
/// byte minus one, and zero for the padding byte `254`.
#[verifier::external_body]
fn decode_digit(b: u8) -> (r: i32)
    ensures
        r as int == digit_of(b),
{
    eolib::data::decode_number(&[b])
}

/// The error type of eolib's number encoder, carried through unopened.
#[verifier::external_type_specification]
#[verifier::external_body]
pub struct ExEoWriterError(eolib::data::EoWriterError);

/// Relies on eolib::data::encode_number: a value below 253 is accepted and
/// its first byte is the value plus one.
#[verifier::external_body]
fn encode_digit(d: i32) -> (r: Result<[u8; 4], eolib::data::EoWriterError>)
    requires
        0 <= d < 253,
    ensures
        r.is_ok() && r.unwrap()@[0] as int == d + 1,
{
    eolib::data::encode_number(d)
}

/// Decodes the length stated by the header `[hi, lo]`.
///
/// Returns `None` for a malformed header: one that holds the reserved byte
/// `0x00`, or whose value falls outside `0..=MAX_FRAME_LEN`.
pub fn decode_length(hi: u8, lo: u8) -> (r: Option<usize>)
    ensures
        header_ok(hi, lo) ==> r == Some(header_value(hi, lo) as usize),
        !header_ok(hi, lo) ==> r is None,
{
    if hi == 0 || lo == 0 {
        return None;
    }
    let h = decode_digit(hi);
    let l = decode_digit(lo);
    let v: i32 = h * 253 + l;
    if 0 <= v && v <= MAX_FRAME_LEN as i32 {
        Some(v as usize)
    } else {
        None
    }
}

/// The byte that stores the digit `d`.
fn stored_digit(d: usize) -> (r: u8)
    requires
        d < 253,
    ensures
        r as int == d + 1,
{
    let bytes = encode_digit(d as i32).unwrap();
    bytes[0]
}

/// Encodes a payload length as the two header bytes, most significant digit first.
pub fn encode_length(n: usize) -> (r: [u8; 2])
    requires
        n <= MAX_FRAME_LEN,
    ensures
        (r@[0], r@[1]) == header_of(n as int),
        header_ok(r@[0], r@[1]),
        header_value(r@[0], r@[1]) == n,
{
    let hi = stored_digit(n / 253);
    let lo = stored_digit(n % 253);
    proof {
        lemma_header_round_trip(n as int);
    }
    [hi, lo]
}

/// Encoding a valid length into a header and decoding that header gives the
/// length back.
pub proof fn lemma_header_round_trip(n: int)
    requires
        valid_len(n),
    ensures
        ({
            let (hi, lo) = header_of(n);
            header_value(hi, lo) == n && header_ok(hi, lo)
        }),
{
    assert(n / 253 <= 252) by (nonlinear_arith)
        requires 0 <= n <= 64008;
    assert(n == (n / 253) * 253 + n % 253) by (nonlinear_arith);
}

} // verus!
