//! Gateway link layer escaping.
//!
//! Seven byte values never appear literally inside a frame body on the wire;
//! each is replaced by `0x7e` followed by a one-byte code.

use vstd::prelude::*;

verus! {

/// The escape code for a byte, or `None` if the byte is sent literally.
pub open spec fn spec_escape_code(b: u8) -> Option<u8> {
    match b {
        0x7e => Some(0x00),
        0x24 => Some(0x01),
        0x23 => Some(0x02),
        0x25 => Some(0x03),
        0xa4 => Some(0x04),
        0xa3 => Some(0x05),
        0xa5 => Some(0x06),
        _ => None,
    }
}

/// The byte a code stands for, or `None` if the code is invalid.
pub open spec fn spec_unescaped_byte(code: u8) -> Option<u8> {
    match code {
        0x00 => Some(0x7e),
        0x01 => Some(0x24),
        0x02 => Some(0x23),
        0x03 => Some(0x25),
        0x04 => Some(0xa4),
        0x05 => Some(0xa3),
        0x06 => Some(0xa5),
        _ => None,
    }
}

/// The on-wire form of one body byte.
pub open spec fn spec_escape_byte(b: u8) -> Seq<u8> {
    match spec_escape_code(b) {
        Some(code) => seq![0x7e, code],
        None => seq![b],
    }
}

/// The on-wire form of a whole body.
pub open spec fn spec_escape(s: Seq<u8>) -> Seq<u8>
    decreases s.len(),
{
    if s.len() == 0 {
        Seq::empty()
    } else {
        spec_escape(s.drop_last()) + spec_escape_byte(s.last())
    }
}

/// Escaping a byte and undoing the escape returns the byte: the code table
/// and the byte table are mutual inverses on the emit-eligible bytes and on
/// the valid codes.
pub proof fn lemma_escaping_bijective()
    ensures
        forall|b: u8| #![trigger spec_escape_code(b)]
            spec_escape_code(b) matches Some(code) ==> spec_unescaped_byte(code) == Some(b),
        forall|code: u8| #![trigger spec_unescaped_byte(code)]
            spec_unescaped_byte(code) matches Some(b) ==> spec_escape_code(b) == Some(code),
{
}

/// An error designating an invalid byte after `0x7e`.
#[derive(Debug, Copy, Clone, Eq, PartialEq, Structural)]
pub struct InvalidEscapeSequence;

/// Undo one escape: the byte that followed `0x7e` selects the original byte.
pub fn unescaped_byte(byte_after_0x7e: u8) -> (r: Result<u8, InvalidEscapeSequence>)
    ensures
        match r {
            Ok(b) => spec_unescaped_byte(byte_after_0x7e) == Some(b),
            Err(_) => spec_unescaped_byte(byte_after_0x7e) is None,
        },
{
    match byte_after_0x7e {
        0x00 => Ok(0x7e),
        0x01 => Ok(0x24),
        0x02 => Ok(0x23),
        0x03 => Ok(0x25),
        0x04 => Ok(0xa4),
        0x05 => Ok(0xa3),
        0x06 => Ok(0xa5),
        _ => Err(InvalidEscapeSequence),
    }
}

/// Whether a byte needs escaping on emit.
fn needs_escape(b: u8) -> (r: bool)
    ensures
        r == (spec_escape_code(b) is Some),
{
    b == 0x7e || b == 0x23 || b == 0x24 || b == 0x25 || b == 0xa3 || b == 0xa4 || b == 0xa5
}

/// The number of bytes needed to store the escaped version of an input buffer.
pub fn escaped_length(input: &[u8]) -> (r: usize)
    requires
        input@.len() * 2 <= usize::MAX,
    ensures
        r == spec_escape(input@).len(),
{
    let mut n: usize = 0;
    let mut i: usize = 0;
    while i < input.len()
        invariant
            0 <= i <= input@.len(),
            input@.len() * 2 <= usize::MAX,
            n == spec_escape(input@.subrange(0, i as int)).len(),
            n <= 2 * i,
        decreases input@.len() - i,
    {
        proof {
            assert(input@.subrange(0, i as int + 1).drop_last() =~= input@.subrange(0, i as int));
        }
        if needs_escape(input[i]) {
            n = n + 2;
        } else {
            n = n + 1;
        }
        i = i + 1;
    }
    proof {
        assert(input@.subrange(0, input@.len() as int) =~= input@);
    }
    n
}

/// Apply link layer escaping, appending to `output`.
pub fn escape(buffer: &[u8], output: &mut Vec<u8>)
    requires
        old(output)@.len() + buffer@.len() * 2 <= usize::MAX,
    ensures
        final(output)@ == old(output)@ + spec_escape(buffer@),
{
    let mut i: usize = 0;
    while i < buffer.len()
        invariant
            0 <= i <= buffer@.len(),
            output@.len() + (buffer@.len() - i) * 2 <= usize::MAX,
            output@ == old(output)@ + spec_escape(buffer@.subrange(0, i as int)),
        decreases buffer@.len() - i,
    {
        let b = buffer[i];
        proof {
            assert(buffer@.subrange(0, i as int + 1).drop_last() =~= buffer@.subrange(0, i as int));
        }
        match b {
            0x7e => {
                output.push(0x7e);
                output.push(0x00);
            }
            0x24 => {
                output.push(0x7e);
                output.push(0x01);
            }
            0x23 => {
                output.push(0x7e);
                output.push(0x02);
            }
            0x25 => {
                output.push(0x7e);
                output.push(0x03);
            }
            0xa4 => {
                output.push(0x7e);
                output.push(0x04);
            }
            0xa3 => {
                output.push(0x7e);
                output.push(0x05);
            }
            0xa5 => {
                output.push(0x7e);
                output.push(0x06);
            }
            _ => {
                output.push(b);
            }
        }
        i = i + 1;
    }
    proof {
        assert(buffer@.subrange(0, buffer@.len() as int) =~= buffer@);
    }
}

} // verus!
