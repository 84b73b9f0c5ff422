//! CRC-16 used by the gateway link layer.
//!
//! Reflected polynomial 0x8408, initial value 0x7c07, final XOR 0xf80f.
//! The checksum is transmitted little-endian after the frame body.

use vstd::prelude::*;

verus! {

/// One shift of the reflected CRC register.
pub open spec fn crc16_shift_once(c: u16) -> u16 {
    if c & 1 == 1 {
        (c >> 1) ^ 0x8408
    } else {
        c >> 1
    }
}

/// `n` shifts of the reflected CRC register.
pub open spec fn crc16_shift(c: u16, n: nat) -> u16
    decreases n,
{
    if n == 0 {
        c
    } else {
        crc16_shift_once(crc16_shift(c, (n - 1) as nat))
    }
}

/// Folding one byte into the CRC register.
pub open spec fn crc16_byte(c: u16, b: u8) -> u16 {
    crc16_shift(c ^ (b as u16), 8)
}

/// Folding a byte sequence into the CRC register, first byte first.
pub open spec fn crc16_fold(c: u16, bytes: Seq<u8>) -> u16
    decreases bytes.len(),
{
    if bytes.len() == 0 {
        c
    } else {
        crc16_byte(crc16_fold(c, bytes.drop_last()), bytes.last())
    }
}

/// The link-layer CRC of a frame body.
pub open spec fn spec_crc(bytes: Seq<u8>) -> u16 {
    crc16_fold(0x7c07, bytes) ^ 0xf80f
}

/// Compute the link-layer CRC of a byte slice.
pub fn crc(bytes: &[u8]) -> (r: u16)
    ensures
        r == spec_crc(bytes@),
{
    let mut c: u16 = 0x7c07;
    let mut i: usize = 0;
    while i < bytes.len()
        invariant
            0 <= i <= bytes@.len(),
            c == crc16_fold(0x7c07, bytes@.subrange(0, i as int)),
        decreases bytes@.len() - i,
    {
        let b = bytes[i];
        let mut d: u16 = c ^ (b as u16);
        let mut k: usize = 0;
        while k < 8
            invariant
                0 <= k <= 8,
                d == crc16_shift(c ^ (b as u16), k as nat),
            decreases 8 - k,
        {
            if d & 1 == 1 {
                d = (d >> 1) ^ 0x8408;
            } else {
                d = d >> 1;
            }
            k = k + 1;
        }
        proof {
            assert(d == crc16_byte(c, b));
            assert(bytes@.subrange(0, i as int + 1).drop_last() =~= bytes@.subrange(0, i as int));
        }
        c = d;
        i = i + 1;
    }
    proof {
        assert(bytes@.subrange(0, bytes@.len() as int) =~= bytes@);
    }
    c ^ 0xf80f
}

} // verus!
