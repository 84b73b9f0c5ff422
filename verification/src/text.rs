//! Byte-to-text conversion helpers shared by the decoders and formatters.

use vstd::prelude::*;
use vstd::utf8::{decode_utf8, encode_utf8, valid_utf8};

verus! {

/// The characters of an ASCII byte sequence, one character per byte.
pub open spec fn ascii_chars(bytes: Seq<u8>) -> Seq<char> {
    Seq::new(bytes.len(), |i: int| bytes[i] as char)
}

/// An all-ASCII byte sequence is valid UTF-8 and decodes to itself,
/// character for character.
pub proof fn lemma_ascii_decode(bytes: Seq<u8>)
    requires
        forall|i: int| 0 <= i < bytes.len() ==> bytes[i] < 0x80,
    ensures
        valid_utf8(bytes),
        decode_utf8(bytes) == ascii_chars(bytes),
    decreases bytes.len(),
{
    if bytes.len() == 0 {
        assert(valid_utf8(bytes));
        assert(decode_utf8(bytes) =~= ascii_chars(bytes));
    } else {
        assert(vstd::utf8::is_leading_byte_width_1(bytes[0]));
        assert(vstd::utf8::valid_first_scalar(bytes));
        assert(vstd::utf8::length_of_first_scalar(bytes) == 1);
        let rest = vstd::utf8::pop_first_scalar(bytes);
        assert(rest =~= bytes.drop_first());
        lemma_ascii_decode(bytes.drop_first());
        assert(valid_utf8(bytes));
        let b0 = bytes[0];
        assert(b0 < 0x80 ==> (b0 & 0x7f) == b0) by (bit_vector);
        assert(vstd::utf8::decode_first_scalar(bytes) == bytes[0] as u32);
        assert(decode_utf8(bytes) == seq![
            vstd::utf8::decode_first_scalar(bytes) as char,
        ] + decode_utf8(rest));
        assert((bytes[0] as u32) as char == bytes[0] as char);
        assert(decode_utf8(bytes) =~= ascii_chars(bytes));
    }
}

/// Relies on `std::str::from_utf8`: it succeeds exactly on valid UTF-8 input,
/// and the resulting string consists of the characters the bytes encode.
#[verifier::external_body]
pub(crate) fn utf8_to_string(bytes: &[u8]) -> (r: Option<String>)
    ensures
        r is Some <==> valid_utf8(bytes@),
        r matches Some(s) ==> encode_utf8(s@) == bytes@,
{
    match std::str::from_utf8(bytes) {
        Ok(s) => Some(s.to_owned()),
        Err(_) => None,
    }
}

/// Convert ASCII bytes to a `String` with the same characters.
pub(crate) fn ascii_to_string(bytes: &Vec<u8>) -> (r: String)
    requires
        forall|i: int| 0 <= i < bytes@.len() ==> bytes@[i] < 0x80,
    ensures
        r@ == ascii_chars(bytes@),
{
    proof {
        lemma_ascii_decode(bytes@);
    }
    let r = utf8_to_string(bytes.as_slice());
    match r {
        Some(s) => {
            proof {
                vstd::utf8::encode_utf8_decode_utf8(s@);
            }
            s
        }
        None => {
            proof {
                assert(false);
            }
            String::new()
        }
    }
}

/// The lowercase hex digit for a nibble.
pub open spec fn spec_hex_lower(n: u8) -> u8
    recommends
        n < 16,
{
    if n < 10 {
        (0x30 + n) as u8
    } else {
        (0x61 + n - 10) as u8
    }
}

/// The uppercase hex digit for a nibble.
pub open spec fn spec_hex_upper(n: u8) -> u8
    recommends
        n < 16,
{
    if n < 10 {
        (0x30 + n) as u8
    } else {
        (0x41 + n - 10) as u8
    }
}

/// Emit the lowercase hex digit for a nibble.
pub(crate) fn hex_lower(n: u8) -> (r: u8)
    requires
        n < 16,
    ensures
        r == spec_hex_lower(n),
        r < 0x80,
{
    if n < 10 {
        0x30 + n
    } else {
        0x61 + n - 10
    }
}

/// Emit the uppercase hex digit for a nibble.
pub(crate) fn hex_upper(n: u8) -> (r: u8)
    requires
        n < 16,
    ensures
        r == spec_hex_upper(n),
        r < 0x80,
{
    if n < 10 {
        0x30 + n
    } else {
        0x41 + n - 10
    }
}

/// The numeric value of a hex digit character (either case), if it is one.
pub open spec fn spec_hex_value(c: u8) -> Option<u8> {
    if 0x30 <= c <= 0x39 {
        Some((c - 0x30) as u8)
    } else if 0x41 <= c <= 0x46 {
        Some((c - 0x41 + 10) as u8)
    } else if 0x61 <= c <= 0x66 {
        Some((c - 0x61 + 10) as u8)
    } else {
        None
    }
}

/// Parse one hex digit character.
pub(crate) fn hex_value(c: u8) -> (r: Option<u8>)
    ensures
        r == spec_hex_value(c),
        r matches Some(v) ==> v < 16,
{
    if 0x30 <= c && c <= 0x39 {
        Some(c - 0x30)
    } else if 0x41 <= c && c <= 0x46 {
        Some(c - 0x41 + 10)
    } else if 0x61 <= c && c <= 0x66 {
        Some(c - 0x61 + 10)
    } else {
        None
    }
}

} // verus!
