//! The barcode codec: a checksummed base-16 projection of the 8-byte gateway
//! hardware address, with a skip-leading-zeros policy and a nibble-wise CRC-4
//! check character.

use crate::pv::LongAddress;
use crate::text;
use vstd::prelude::*;

verus! {

/// A barcode: the text form of a hardware address.
#[derive(Debug, Copy, Clone)]
pub struct Barcode(pub LongAddress);

/// An error designating text that is not a well-formed barcode.
#[derive(Debug, Clone)]
pub struct InvalidBarcodeError(pub Vec<u8>);

impl LongAddress {
    /// The barcode of this address.
    pub fn barcode(&self) -> (r: Barcode)
        ensures
            r.0 == *self,
    {
        Barcode(*self)
    }
}

/// One division step of the CRC-4 register (polynomial `x^4 + x + 1`),
/// consuming one message bit.
pub open spec fn spec_crc4_step(r: u8, bit: u8) -> u8
    recommends
        r < 16,
        bit <= 1,
{
    let r2 = ((r << 1) | bit) as u8;
    if r2 & 0x10 == 0x10 {
        (r2 ^ 0x13) as u8
    } else {
        r2
    }
}

/// The CRC-4 register after consuming the top `k` bits of a twelve-bit
/// message word.
pub open spec fn spec_crc4_fold(v: u16, k: nat) -> u8
    recommends
        k <= 12,
    decreases k,
{
    if k == 0 {
        0
    } else {
        spec_crc4_step(spec_crc4_fold(v, (k - 1) as nat), ((v >> ((12 - k) as u16)) & 1) as u8)
    }
}

/// The CRC-4 of a byte followed by four zero bits: the value the barcode
/// check folds each address byte through.
pub open spec fn spec_crc4_table(x: u8) -> u8 {
    spec_crc4_fold((x as u16) << 4, 12)
}

/// The CRC-4 register after folding in a byte sequence, starting from the
/// initial value 2.
pub open spec fn spec_crc4(bytes: Seq<u8>) -> u8
    decreases bytes.len(),
{
    if bytes.len() == 0 {
        2
    } else {
        let c = spec_crc4(bytes.drop_last());
        spec_crc4_table((bytes.last() ^ ((c << 4) as u8)) as u8)
    }
}

/// The check character for a 4-bit CRC value, drawn from the sixteen-symbol
/// barcode alphabet.
pub open spec fn spec_check_char(c: u8) -> u8
    recommends
        c < 16,
{
    spec_barcode_alphabet()[c as int]
}

/// The sixteen-symbol barcode check alphabet.
pub open spec fn spec_barcode_alphabet() -> Seq<u8> {
    seq![0x47u8, 0x48, 0x4a, 0x4b, 0x4c, 0x4d, 0x4e, 0x50, 0x52, 0x53, 0x54, 0x56, 0x57, 0x58,
        0x59, 0x5a]  // GHJKLMNPRSTVWXYZ
}

/// Each division step keeps the register below sixteen.
proof fn lemma_crc4_step_bound(r: u8, bit: u8)
    requires
        r < 16,
        bit <= 1,
    ensures
        spec_crc4_step(r, bit) < 16,
{
    assert(r < 16 && bit <= 1 ==> spec_crc4_step(r, bit) < 16) by (bit_vector);
}

/// The folded register stays below sixteen.
proof fn lemma_crc4_fold_bound(v: u16, k: nat)
    requires
        k <= 12,
    ensures
        spec_crc4_fold(v, k) < 16,
    decreases k,
{
    if k > 0 {
        lemma_crc4_fold_bound(v, (k - 1) as nat);
        let sh = (12 - k) as u16;
        assert(((v >> sh) & 1) <= 1) by (bit_vector);
        lemma_crc4_step_bound(spec_crc4_fold(v, (k - 1) as nat), ((v >> sh) & 1) as u8);
    }
}

/// The CRC-4 of any byte sequence is below sixteen.
pub proof fn lemma_crc4_bound(bytes: Seq<u8>)
    ensures
        spec_crc4(bytes) < 16,
    decreases bytes.len(),
{
    if bytes.len() > 0 {
        lemma_crc4_fold_bound((((bytes.last() ^ ((spec_crc4(bytes.drop_last()) << 4) as u8))
            as u16) << 4) as u16, 12);
    }
}

/// The check character of every 8-byte input lies in the sixteen-character
/// barcode alphabet.
pub proof fn lemma_check_char_in_alphabet(bytes: Seq<u8>)
    ensures
        spec_barcode_alphabet().contains(spec_check_char(spec_crc4(bytes))),
{
    lemma_crc4_bound(bytes);
    let c = spec_crc4(bytes);
    assert(spec_barcode_alphabet()[c as int] == spec_check_char(c));
}

/// Compute the value the CRC table assigns to a byte: the remainder of the
/// byte followed by four zero bits.
fn crc4_table(x: u8) -> (r: u8)
    ensures
        r == spec_crc4_table(x),
        r < 16,
{
    let v: u16 = (x as u16) << 4;
    let mut r: u8 = 0;
    let mut k: usize = 0;
    while k < 12
        invariant
            0 <= k <= 12,
            r == spec_crc4_fold(v, k as nat),
            r < 16,
        decreases 12 - k,
    {
        let bit = ((v >> (11 - k) as u16) & 1) as u8;
        proof {
            assert(((12 - (k + 1) as nat) as u16) == ((11 - k) as u16));
            lemma_crc4_fold_bound(v, (k + 1) as nat);
        }
        let r2 = (r << 1) | bit;
        if r2 & 0x10 == 0x10 {
            r = r2 ^ 0x13;
        } else {
            r = r2;
        }
        k = k + 1;
    }
    r
}

/// Compute the barcode check character of an address: a nibble-wise CRC-4
/// with initial value 2, projected through the check alphabet.
pub fn crc(addr: &LongAddress) -> (r: u8)
    ensures
        r == spec_check_char(spec_crc4(addr@)),
        spec_barcode_alphabet().contains(r),
{
    let mut c: u8 = 2;
    let mut i: usize = 0;
    while i < 8
        invariant
            0 <= i <= 8,
            c == spec_crc4(addr@.take(i as int)),
            c < 16,
        decreases 8 - i,
    {
        proof {
            assert(addr@.take(i as int + 1).drop_last() =~= addr@.take(i as int));
            lemma_crc4_bound(addr@.take(i as int + 1));
        }
        c = crc4_table(addr.0[i] ^ (c << 4));
        i = i + 1;
    }
    proof {
        assert(addr@.take(8) =~= addr@);
        lemma_crc4_bound(addr@);
    }
    let table: [u8; 16] = [
        0x47,
        0x48,
        0x4a,
        0x4b,
        0x4c,
        0x4d,
        0x4e,
        0x50,
        0x52,
        0x53,
        0x54,
        0x56,
        0x57,
        0x58,
        0x59,
        0x5a,
    ];
    let r = table[c as usize];
    proof {
        assert(table@ =~= spec_barcode_alphabet());
        assert(spec_barcode_alphabet()[spec_crc4(addr@) as int] == spec_check_char(
            spec_crc4(addr@),
        ));
    }
    r
}

/// The nine nibbles of an address that the barcode digits draw from: the low
/// nibble of the fourth byte, then both nibbles of the remaining four bytes.
pub open spec fn spec_barcode_nibbles(a: Seq<u8>) -> Seq<u8>
    recommends
        a.len() == 8,
{
    seq![
        (a[3] & 0xf) as u8,
        (a[4] >> 4) as u8,
        (a[4] & 0xf) as u8,
        (a[5] >> 4) as u8,
        (a[5] & 0xf) as u8,
        (a[6] >> 4) as u8,
        (a[6] & 0xf) as u8,
        (a[7] >> 4) as u8,
        (a[7] & 0xf) as u8,
    ]
}

/// A nibble sequence with its leading zeroes removed.
pub open spec fn spec_skip_zeros(nibs: Seq<u8>) -> Seq<u8>
    decreases nibs.len(),
{
    if nibs.len() == 0 {
        nibs
    } else if nibs[0] == 0 {
        spec_skip_zeros(nibs.drop_first())
    } else {
        nibs
    }
}

/// The uppercase hex digits of a nibble sequence.
pub open spec fn spec_hex_digits(nibs: Seq<u8>) -> Seq<u8> {
    nibs.map_values(|n: u8| text::spec_hex_upper(n))
}

/// Whether an address carries the manufacturer prefix the barcode form
/// expects.
pub open spec fn spec_has_barcode_prefix(a: Seq<u8>) -> bool
    recommends
        a.len() == 8,
{
    a[0] == 0x04 && a[1] == 0xc0 && a[2] == 0x5b
}

/// The barcode text of an address with the manufacturer prefix: one hex
/// digit, a dash, the nibble digits with leading zeroes skipped, and the
/// check character. An address with another prefix prints as colon-separated
/// hex instead.
pub open spec fn spec_barcode_text(a: Seq<u8>) -> Seq<u8>
    recommends
        a.len() == 8,
{
    if spec_has_barcode_prefix(a) {
        seq![text::spec_hex_upper((a[3] >> 4) as u8), 0x2du8] + spec_hex_digits(
            spec_skip_zeros(spec_barcode_nibbles(a)),
        ) + seq![spec_check_char(spec_crc4(a))]
    } else {
        crate::pv::spec_long_address_text(a)
    }
}

impl Barcode {
    /// The text of this barcode: the checksummed base-16 form for addresses
    /// with the manufacturer prefix, colon-separated hex otherwise.
    pub fn text(&self) -> (r: String)
        ensures
            r@ == text::ascii_chars(spec_barcode_text(self.0@)),
    {
        let a = &self.0;
        if !(a.0[0] == 0x04 && a.0[1] == 0xc0 && a.0[2] == 0x5b) {
            return a.text();
        }
        let mut v: Vec<u8> = Vec::new();
        let b3 = a.0[3];
        let b4 = a.0[4];
        let b5 = a.0[5];
        let b6 = a.0[6];
        let b7 = a.0[7];
        let lead = b3 >> 4;
        assert(lead < 16) by (bit_vector)
            requires
                lead == b3 >> 4,
        ;
        v.push(text::hex_upper(lead));
        v.push(0x2d);  // -
        let nibbles: [u8; 9] = [
            b3 & 0xf,
            b4 >> 4,
            b4 & 0xf,
            b5 >> 4,
            b5 & 0xf,
            b6 >> 4,
            b6 & 0xf,
            b7 >> 4,
            b7 & 0xf,
        ];
        assert((b3 & 0xf) < 16 && (b4 >> 4) < 16 && (b4 & 0xf) < 16 && (b5 >> 4) < 16 && (b5
            & 0xf) < 16 && (b6 >> 4) < 16 && (b6 & 0xf) < 16 && (b7 >> 4) < 16 && (b7 & 0xf)
            < 16) by (bit_vector);
        proof {
            assert(nibbles@ =~= spec_barcode_nibbles(a@));
            assert(v@ =~= seq![text::spec_hex_upper((a@[3] >> 4) as u8), 0x2du8]);
            assert(nibbles@.skip(0) =~= nibbles@);
        }
        let mut skipping = true;
        let mut i: usize = 0;
        while i < 9
            invariant
                0 <= i <= 9,
                nibbles@ == spec_barcode_nibbles(a@),
                forall|j: int| 0 <= j < 9 ==> nibbles@[j] < 16,
                skipping ==> v@ == seq![
                    text::spec_hex_upper((a@[3] >> 4) as u8),
                    0x2du8,
                ] && spec_skip_zeros(nibbles@.skip(i as int)) == spec_skip_zeros(nibbles@),
                !skipping ==> v@ == seq![
                    text::spec_hex_upper((a@[3] >> 4) as u8),
                    0x2du8,
                ] + spec_hex_digits(spec_skip_zeros(nibbles@).take(
                    spec_skip_zeros(nibbles@).len() - (9 - i),
                )) && spec_skip_zeros(nibbles@).len() >= 9 - i,
                forall|k: int| 0 <= k < v@.len() ==> v@[k] < 0x80,
            decreases 9 - i,
        {
            let n = nibbles[i];
            if skipping && n == 0 {
                proof {
                    assert(nibbles@.skip(i as int).drop_first() =~= nibbles@.skip(i as int + 1));
                }
            } else {
                if skipping {
                    skipping = false;
                    proof {
                        assert(spec_skip_zeros(nibbles@.skip(i as int)) == nibbles@.skip(i as int));
                        assert(spec_skip_zeros(nibbles@).take(
                            spec_skip_zeros(nibbles@).len() - (9 - i),
                        ) =~= Seq::empty());
                    }
                }
                proof {
                    lemma_skip_zeros_suffix(nibbles@);
                    let zs = spec_skip_zeros(nibbles@);
                    assert(zs =~= nibbles@.skip(9 - zs.len()));
                    assert(zs.take(zs.len() - (9 - i)).push(nibbles@[i as int]) =~= zs.take(
                        zs.len() - (9 - (i + 1)),
                    ));
                }
                v.push(text::hex_upper(n));
            }
            i = i + 1;
        }
        let check = crc(a);
        proof {
            lemma_crc4_bound(a@);
            if skipping {
                assert(spec_skip_zeros(nibbles@.skip(9)) =~= Seq::<u8>::empty());
                assert(spec_skip_zeros(nibbles@) =~= Seq::<u8>::empty());
            } else {
                assert(spec_skip_zeros(nibbles@).take(spec_skip_zeros(nibbles@).len() as int)
                    =~= spec_skip_zeros(nibbles@));
            }
            assert(spec_barcode_alphabet().contains(check) ==> check < 0x80);
        }
        v.push(check);
        proof {
            assert(v@ =~= spec_barcode_text(a@));
        }
        text::ascii_to_string(&v)
    }
}

/// The leading zeroes that skipping removes leave a suffix of the sequence.
pub proof fn lemma_skip_zeros_suffix(s: Seq<u8>)
    ensures
        spec_skip_zeros(s).len() <= s.len(),
        spec_skip_zeros(s) =~= s.skip(s.len() - spec_skip_zeros(s).len()),
    decreases s.len(),
{
    if s.len() == 0 {
    } else if s[0] == 0 {
        lemma_skip_zeros_suffix(s.drop_first());
        assert(s.drop_first().skip(
            s.drop_first().len() - spec_skip_zeros(s.drop_first()).len(),
        ) =~= s.skip(s.len() - spec_skip_zeros(s).len()));
    } else {
        assert(s.skip(0) =~= s);
    }
}

/// The numeric value of a nibble sequence read as base-16 digits; exact for
/// up to sixteen nibbles.
pub open spec fn spec_nibble_value(nibs: Seq<u8>) -> u64
    decreases nibs.len(),
{
    if nibs.len() == 0 {
        0
    } else {
        (spec_nibble_value(nibs.drop_last()) * 16 + nibs.last()) as u64
    }
}

/// The numeric value of a hex digit string, or `None` if some character is
/// not a hex digit. The empty string has value zero.
pub open spec fn spec_hex_string_value(s: Seq<u8>) -> Option<int>
    decreases s.len(),
{
    if s.len() == 0 {
        Some(0)
    } else {
        match (spec_hex_string_value(s.drop_last()), text::spec_hex_value(s.last())) {
            (Some(v), Some(d)) => Some(v * 16 + d),
            _ => None,
        }
    }
}

/// The 64-bit value of an 8-byte address, big-endian.
pub open spec fn spec_addr_u64(a: Seq<u8>) -> u64
    recommends
        a.len() == 8,
{
    ((a[0] as u64) << 56 | (a[1] as u64) << 48 | (a[2] as u64) << 40 | (a[3] as u64) << 32 | (
    a[4] as u64) << 24 | (a[5] as u64) << 16 | (a[6] as u64) << 8 | (a[7] as u64)) as u64
}

/// The address bytes of a 64-bit value, big-endian.
pub open spec fn spec_u64_bytes(v: u64) -> Seq<u8> {
    seq![
        (v >> 56) as u8,
        ((v >> 48) & 0xff) as u8,
        ((v >> 40) & 0xff) as u8,
        ((v >> 32) & 0xff) as u8,
        ((v >> 24) & 0xff) as u8,
        ((v >> 16) & 0xff) as u8,
        ((v >> 8) & 0xff) as u8,
        (v & 0xff) as u8,
    ]
}

/// The address a barcode text denotes, or `None` if the text is rejected:
/// it must have a dash as its second character, at least five characters, a
/// hex digit first, a hex middle whose value fits in 64 bits, and the check
/// character of the reconstructed address last.
pub open spec fn spec_barcode_parse(s: Seq<u8>) -> Option<Seq<u8>> {
    if s.len() < 5 || s[1] != 0x2d {
        None
    } else {
        match (text::spec_hex_value(s[0]), spec_hex_string_value(s.subrange(2, s.len() - 1))) {
            (Some(lead), Some(rest)) => {
                if rest > u64::MAX {
                    None
                } else {
                    let v = ((rest as u64) | (((0x04c05b0u64 | (lead as u64)) << 36) as u64)) as u64;
                    let addr = spec_u64_bytes(v);
                    if s.last() == spec_check_char(spec_crc4(addr)) {
                        Some(addr)
                    } else {
                        None
                    }
                }
            },
            _ => None,
        }
    }
}

impl Barcode {
    /// Parse barcode text into the address it denotes; text that is not a
    /// well-formed barcode with a matching check character is rejected, with
    /// the offending input in the error.
    pub fn parse(s: &[u8]) -> (r: Result<Barcode, InvalidBarcodeError>)
        ensures
            match r {
                Ok(b) => spec_barcode_parse(s@) == Some(b.0@),
                Err(_) => spec_barcode_parse(s@) is None,
            },
    {
        let err: bool = s.len() < 5 || s[1] != 0x2d;
        if err {
            return Err(InvalidBarcodeError(vstd::slice::slice_to_vec(s)));
        }
        let lead = match text::hex_value(s[0]) {
            Some(v) => v,
            None => {
                return Err(InvalidBarcodeError(vstd::slice::slice_to_vec(s)));
            },
        };
        let mut rest: u64 = 0;
        let mut i: usize = 2;
        let end = s.len() - 1;
        while i < end
            invariant
                2 <= i <= end,
                end == s@.len() - 1,
                s@.len() >= 5,
                spec_hex_string_value(s@.subrange(2, i as int)) == Some(rest as int),
            decreases end - i,
        {
            let d = match text::hex_value(s[i]) {
                Some(v) => v,
                None => {
                    proof {
                        lemma_hex_string_value_extend_none(s@.subrange(2, s@.len() - 1), i - 2);
                    }
                    return Err(InvalidBarcodeError(vstd::slice::slice_to_vec(s)));
                },
            };
            if rest > 0x0fff_ffff_ffff_ffff {
                proof {
                    assert(s@.subrange(2, s@.len() - 1).take(i - 2) =~= s@.subrange(2, i as int));
                    lemma_hex_string_value_grows(s@.subrange(2, s@.len() - 1), i - 2);
                }
                return Err(InvalidBarcodeError(vstd::slice::slice_to_vec(s)));
            }
            proof {
                assert(s@.subrange(2, i as int + 1).drop_last() =~= s@.subrange(2, i as int));
            }
            rest = rest * 16 + (d as u64);
            i = i + 1;
        }
        proof {
            assert(s@.subrange(2, i as int) =~= s@.subrange(2, s@.len() - 1));
        }
        let v: u64 = rest | ((0x04c05b0u64 | (lead as u64)) << 36);
        let addr = LongAddress(
            [
                (v >> 56) as u8,
                ((v >> 48) & 0xff) as u8,
                ((v >> 40) & 0xff) as u8,
                ((v >> 32) & 0xff) as u8,
                ((v >> 24) & 0xff) as u8,
                ((v >> 16) & 0xff) as u8,
                ((v >> 8) & 0xff) as u8,
                (v & 0xff) as u8,
            ],
        );
        proof {
            assert(addr@ =~= spec_u64_bytes(v));
        }
        let check = crc(&addr);
        if check == s[s.len() - 1] {
            Ok(Barcode(addr))
        } else {
            Err(InvalidBarcodeError(vstd::slice::slice_to_vec(s)))
        }
    }
}

/// A hex string with a non-digit somewhere has no value.
proof fn lemma_hex_string_value_extend_none(s: Seq<u8>, i: int)
    requires
        0 <= i < s.len(),
        text::spec_hex_value(s[i]) is None,
    ensures
        spec_hex_string_value(s) is None,
    decreases s.len(),
{
    if i == s.len() - 1 {
    } else {
        lemma_hex_string_value_extend_none(s.drop_last(), i);
    }
}

/// The value of a hex string is at least the value of any of its prefixes
/// scaled by sixteen for each digit that follows — in particular, once a
/// prefix exceeds a sixteenth of the 64-bit range, the whole string's value
/// exceeds it, or some later character is not a digit.
proof fn lemma_hex_string_value_grows(s: Seq<u8>, i: int)
    requires
        0 <= i < s.len(),
        spec_hex_string_value(s.take(i)) matches Some(p) && p > 0x0fff_ffff_ffff_ffff,
    ensures
        match spec_hex_string_value(s) {
            Some(v) => v > u64::MAX,
            None => true,
        },
    decreases s.len(),
{
    if i == s.len() {
    } else if i == s.len() - 1 {
        assert(s.take(i) =~= s.drop_last());
    } else {
        assert(s.drop_last().take(i) =~= s.take(i));
        lemma_hex_string_value_grows(s.drop_last(), i);
    }
}

} // verus!

verus! {

/// A nibble sequence of at most nine nibbles has a value below `2^(4·len)`.
proof fn lemma_nibble_value_bound(nibs: Seq<u8>)
    requires
        forall|i: int| 0 <= i < nibs.len() ==> nibs[i] < 16,
        nibs.len() <= 9,
    ensures
        (spec_nibble_value(nibs) as int) < vstd::arithmetic::power2::pow2(4 * nibs.len()),
    decreases nibs.len(),
{
    vstd::arithmetic::power2::lemma2_to64();
    vstd::arithmetic::power2::lemma2_to64_rest();
    if nibs.len() == 0 {
        assert(vstd::arithmetic::power2::pow2(0) == 1);
    } else {
        lemma_nibble_value_bound(nibs.drop_last());
        vstd::arithmetic::power2::lemma_pow2_adds((4 * (nibs.len() - 1)) as nat, 4);
        assert(vstd::arithmetic::power2::pow2(4) == 16);
        assert(vstd::arithmetic::power2::pow2(4 * nibs.len()) == vstd::arithmetic::power2::pow2(
            (4 * (nibs.len() - 1)) as nat,
        ) * 16);
        assert(vstd::arithmetic::power2::pow2(4 * nibs.len()) <= vstd::arithmetic::power2::pow2(
            36,
        )) by {
            vstd::arithmetic::power2::lemma_pow2_pos(4 * nibs.len());
            if 4 * nibs.len() < 36 {
                vstd::arithmetic::power2::lemma_pow2_strictly_increases(4 * nibs.len(), 36);
            }
        }
        assert(spec_nibble_value(nibs.drop_last()) * 16 + nibs.last()
            < vstd::arithmetic::power2::pow2(4 * nibs.len()));
    }
}

/// A zero nibble in front of a sequence does not change its value.
proof fn lemma_nibble_value_zero_head(rest: Seq<u8>)
    ensures
        spec_nibble_value(seq![0u8] + rest) == spec_nibble_value(rest),
    decreases rest.len(),
{
    if rest.len() == 0 {
        assert((seq![0u8] + rest) =~= seq![0u8]);
        assert(seq![0u8].drop_last() =~= Seq::<u8>::empty());
        assert(spec_nibble_value(Seq::<u8>::empty()) == 0);
        assert(spec_nibble_value(seq![0u8]) == 0);
        assert(spec_nibble_value(rest) == 0);
    } else {
        assert((seq![0u8] + rest).drop_last() =~= seq![0u8] + rest.drop_last());
        lemma_nibble_value_zero_head(rest.drop_last());
        assert((seq![0u8] + rest).last() == rest.last());
        assert(spec_nibble_value(seq![0u8] + rest) == (spec_nibble_value(
            seq![0u8] + rest.drop_last(),
        ) * 16 + rest.last()) as u64);
    }
}

/// Skipping leading zeroes does not change a nibble sequence's value.
proof fn lemma_skip_zeros_value(nibs: Seq<u8>)
    ensures
        spec_nibble_value(spec_skip_zeros(nibs)) == spec_nibble_value(nibs),
    decreases nibs.len(),
{
    if nibs.len() > 0 && nibs[0] == 0 {
        assert(nibs =~= seq![0u8] + nibs.drop_first());
        lemma_nibble_value_zero_head(nibs.drop_first());
        lemma_skip_zeros_value(nibs.drop_first());
    }
}

/// The hex digits of a nibble sequence of at most nine nibbles parse back to
/// the sequence's value.
proof fn lemma_hex_digits_value(nibs: Seq<u8>)
    requires
        forall|i: int| 0 <= i < nibs.len() ==> nibs[i] < 16,
        nibs.len() <= 9,
    ensures
        spec_hex_string_value(spec_hex_digits(nibs)) == Some(spec_nibble_value(nibs) as int),
    decreases nibs.len(),
{
    if nibs.len() == 0 {
        assert(spec_hex_digits(nibs) =~= Seq::<u8>::empty());
    } else {
        assert(spec_hex_digits(nibs).drop_last() =~= spec_hex_digits(nibs.drop_last()));
        lemma_hex_digits_value(nibs.drop_last());
        let n = nibs.last();
        assert(spec_hex_digits(nibs).last() == text::spec_hex_upper(n));
        assert(text::spec_hex_value(text::spec_hex_upper(n)) == Some(n));
        lemma_nibble_value_bound(nibs.drop_last());
        vstd::arithmetic::power2::lemma2_to64();
        vstd::arithmetic::power2::lemma2_to64_rest();
        assert(vstd::arithmetic::power2::pow2((4 * (nibs.len() - 1)) as nat)
            <= vstd::arithmetic::power2::pow2(32)) by {
            if 4 * (nibs.len() - 1) < 32 {
                vstd::arithmetic::power2::lemma_pow2_strictly_increases(
                    (4 * (nibs.len() - 1)) as nat,
                    32,
                );
            }
        }
        assert(spec_nibble_value(nibs.drop_last()) * 16 + n <= u64::MAX);
        assert(spec_nibble_value(nibs) == spec_nibble_value(nibs.drop_last()) * 16 + n);
    }
}

/// Barcode round trip: every address with the manufacturer prefix whose nine
/// barcode nibbles read as a value of at least sixteen — so that its barcode
/// text has the minimum length — parses back to the same address.
#[verifier::rlimit(60)]
pub proof fn lemma_barcode_round_trip(a: Seq<u8>)
    requires
        a.len() == 8,
        spec_has_barcode_prefix(a),
        spec_nibble_value(spec_barcode_nibbles(a)) >= 16,
    ensures
        spec_barcode_parse(spec_barcode_text(a)) == Some(a),
{
    let b3 = a[3];
    let b4 = a[4];
    let b5 = a[5];
    let b6 = a[6];
    let b7 = a[7];
    let n0 = (b3 & 0xf) as u8;
    let n1 = (b4 >> 4) as u8;
    let n2 = (b4 & 0xf) as u8;
    let n3 = (b5 >> 4) as u8;
    let n4 = (b5 & 0xf) as u8;
    let n5 = (b6 >> 4) as u8;
    let n6 = (b6 & 0xf) as u8;
    let n7 = (b7 >> 4) as u8;
    let n8 = (b7 & 0xf) as u8;
    let nibs = spec_barcode_nibbles(a);
    assert(nibs =~= seq![n0, n1, n2, n3, n4, n5, n6, n7, n8]);
    assert(n0 < 16 && n1 < 16 && n2 < 16 && n3 < 16 && n4 < 16 && n5 < 16 && n6 < 16 && n7 < 16
        && n8 < 16) by (bit_vector)
        requires
            n0 == (b3 & 0xf) as u8 && n1 == (b4 >> 4) as u8 && n2 == (b4 & 0xf) as u8 && n3 == (b5
                >> 4) as u8 && n4 == (b5 & 0xf) as u8 && n5 == (b6 >> 4) as u8 && n6 == (b6
                & 0xf) as u8 && n7 == (b7 >> 4) as u8 && n8 == (b7 & 0xf) as u8,
    ;
    lemma_skip_zeros_suffix(nibs);
    lemma_skip_zeros_value(nibs);
    let zs = spec_skip_zeros(nibs);
    assert(forall|i: int| 0 <= i < zs.len() ==> zs[i] < 16);
    // at least two digits are emitted, since the value needs two
    if zs.len() == 0 {
        assert(spec_nibble_value(zs) == 0);
        assert(false);
    }
    if zs.len() == 1 {
        assert(zs.drop_last() =~= Seq::<u8>::empty());
        assert(spec_nibble_value(Seq::<u8>::empty()) == 0);
        assert(zs.last() == zs[0]);
        assert(spec_nibble_value(zs) == zs[0]);
        assert(spec_nibble_value(zs) < 16);
        assert(false);
    }
    let digits = spec_hex_digits(zs);
    let check = spec_check_char(spec_crc4(a));
    let lead = (b3 >> 4) as u8;
    let s = spec_barcode_text(a);
    assert(s =~= seq![text::spec_hex_upper(lead), 0x2du8] + digits + seq![check]);
    assert(s.len() == 3 + zs.len() >= 5);
    assert(s[1] == 0x2d);
    assert(lead < 16) by (bit_vector)
        requires
            lead == (b3 >> 4) as u8,
    ;
    assert(s[0] == text::spec_hex_upper(lead));
    assert(text::spec_hex_value(s[0]) == Some(lead));
    assert(s.subrange(2, s.len() - 1) =~= digits);
    lemma_hex_digits_value(zs);
    let rest = spec_nibble_value(zs);
    assert(spec_hex_string_value(digits) == Some(rest as int));
    lemma_nibble_value_bound(nibs);
    vstd::arithmetic::power2::lemma2_to64();
    vstd::arithmetic::power2::lemma2_to64_rest();
    assert(rest < 0x1000000000);
    // unfold the nibble value into its closed form
    assert(nibs.drop_last() =~= seq![n0, n1, n2, n3, n4, n5, n6, n7]);
    assert(seq![n0, n1, n2, n3, n4, n5, n6, n7].drop_last() =~= seq![n0, n1, n2, n3, n4, n5, n6]);
    assert(seq![n0, n1, n2, n3, n4, n5, n6].drop_last() =~= seq![n0, n1, n2, n3, n4, n5]);
    assert(seq![n0, n1, n2, n3, n4, n5].drop_last() =~= seq![n0, n1, n2, n3, n4]);
    assert(seq![n0, n1, n2, n3, n4].drop_last() =~= seq![n0, n1, n2, n3]);
    assert(seq![n0, n1, n2, n3].drop_last() =~= seq![n0, n1, n2]);
    assert(seq![n0, n1, n2].drop_last() =~= seq![n0, n1]);
    assert(seq![n0, n1].drop_last() =~= seq![n0]);
    assert(seq![n0].drop_last() =~= Seq::<u8>::empty());
    let v36 = spec_nibble_value(nibs);
    let t1 = ((n0 as u64) * 16 + n1 as u64) as u64;
    let t2 = (t1 * 16 + n2 as u64) as u64;
    let t3 = (t2 * 16 + n3 as u64) as u64;
    let t4 = (t3 * 16 + n4 as u64) as u64;
    let t5 = (t4 * 16 + n5 as u64) as u64;
    let t6 = (t5 * 16 + n6 as u64) as u64;
    let t7 = (t6 * 16 + n7 as u64) as u64;
    let t8 = (t7 * 16 + n8 as u64) as u64;
    assert(spec_nibble_value(Seq::<u8>::empty()) == 0);
    assert(spec_nibble_value(seq![n0]) == n0);
    assert(spec_nibble_value(seq![n0, n1]) == t1);
    assert(spec_nibble_value(seq![n0, n1, n2]) == t2);
    assert(spec_nibble_value(seq![n0, n1, n2, n3]) == t3);
    assert(spec_nibble_value(seq![n0, n1, n2, n3, n4]) == t4);
    assert(spec_nibble_value(seq![n0, n1, n2, n3, n4, n5]) == t5);
    assert(spec_nibble_value(seq![n0, n1, n2, n3, n4, n5, n6]) == t6);
    assert(spec_nibble_value(seq![n0, n1, n2, n3, n4, n5, n6, n7]) == t7);
    assert(v36 == t8);
    let composed = ((v36 | (((0x04c05b0u64 | (lead as u64)) << 36) as u64)) as u64);
    assert({
        &&& (composed >> 56) as u8 == 0x04
        &&& ((composed >> 48) & 0xff) as u8 == 0xc0
        &&& ((composed >> 40) & 0xff) as u8 == 0x5b
        &&& ((composed >> 32) & 0xff) as u8 == b3
        &&& ((composed >> 24) & 0xff) as u8 == b4
        &&& ((composed >> 16) & 0xff) as u8 == b5
        &&& ((composed >> 8) & 0xff) as u8 == b6
        &&& (composed & 0xff) as u8 == b7
    }) by (bit_vector)
        requires
            n0 == (b3 & 0xf) as u8,
            n1 == (b4 >> 4) as u8,
            n2 == (b4 & 0xf) as u8,
            n3 == (b5 >> 4) as u8,
            n4 == (b5 & 0xf) as u8,
            n5 == (b6 >> 4) as u8,
            n6 == (b6 & 0xf) as u8,
            n7 == (b7 >> 4) as u8,
            n8 == (b7 & 0xf) as u8,
            lead == (b3 >> 4) as u8,
            t1 == ((n0 as u64) * 16 + n1 as u64) as u64,
            t2 == (t1 * 16 + n2 as u64) as u64,
            t3 == (t2 * 16 + n3 as u64) as u64,
            t4 == (t3 * 16 + n4 as u64) as u64,
            t5 == (t4 * 16 + n5 as u64) as u64,
            t6 == (t5 * 16 + n6 as u64) as u64,
            t7 == (t6 * 16 + n7 as u64) as u64,
            t8 == (t7 * 16 + n8 as u64) as u64,
            v36 == t8,
            composed == ((v36 | (((0x04c05b0u64 | (lead as u64)) << 36) as u64)) as u64),
    ;
    assert(spec_u64_bytes(composed) =~= a);
    assert(s.last() == spec_check_char(spec_crc4(a)));
    assert(spec_barcode_parse(s) == Some(a));
}

} // verus!

verus! {

/// Whether a byte is an uppercase hex digit.
pub open spec fn spec_is_upper_hex(c: u8) -> bool {
    (0x30 <= c <= 0x39) || (0x41 <= c <= 0x46)
}

/// Whether barcode text is in the canonical form the formatter produces:
/// a dash after the first character, an uppercase hex lead digit, two to
/// nine uppercase hex digits in the middle with no leading zero, and one
/// final character.
pub open spec fn spec_canonical_barcode(s: Seq<u8>) -> bool {
    &&& 5 <= s.len() <= 12
    &&& s[1] == 0x2d
    &&& spec_is_upper_hex(s[0])
    &&& (forall|i: int| 2 <= i < s.len() - 1 ==> spec_is_upper_hex(#[trigger] s[i]))
    &&& s[2] != 0x30
}

/// The digit values of a hex digit string.
pub open spec fn spec_digit_values(s: Seq<u8>) -> Seq<u8> {
    s.map_values(
        |c: u8|
            match text::spec_hex_value(c) {
                Some(v) => v,
                None => 0,
            },
    )
}

/// The uppercase hex digit of a digit's value is the digit itself.
proof fn lemma_upper_hex_round_trip(c: u8)
    requires
        spec_is_upper_hex(c),
    ensures
        text::spec_hex_value(c) matches Some(v) && v < 16 && text::spec_hex_upper(v) == c,
{
}

/// A hex digit string reads as the base-16 value of its digit values.
proof fn lemma_hex_string_digit_values(s: Seq<u8>)
    requires
        forall|i: int| 0 <= i < s.len() ==> spec_is_upper_hex(#[trigger] s[i]),
        s.len() <= 9,
    ensures
        forall|i: int| 0 <= i < s.len() ==> #[trigger] spec_digit_values(s)[i] < 16,
        spec_hex_digits(spec_digit_values(s)) =~= s,
        spec_hex_string_value(s) == Some(spec_nibble_value(spec_digit_values(s)) as int),
{
    assert forall|i: int| 0 <= i < s.len() implies #[trigger] spec_digit_values(s)[i] < 16 by {
        lemma_upper_hex_round_trip(s[i]);
    }
    assert forall|i: int|
        0 <= i < s.len() implies #[trigger] spec_hex_digits(spec_digit_values(s))[i] == s[i] by {
        lemma_upper_hex_round_trip(s[i]);
    }
    lemma_hex_digits_value(spec_digit_values(s));
    assert(spec_hex_digits(spec_digit_values(s)) =~= s);
}

/// Two nibble sequences of one length and value are the same sequence.
proof fn lemma_base16_unique(a: Seq<u8>, b: Seq<u8>)
    requires
        a.len() == b.len() <= 9,
        forall|i: int| 0 <= i < a.len() ==> #[trigger] a[i] < 16,
        forall|i: int| 0 <= i < b.len() ==> #[trigger] b[i] < 16,
        spec_nibble_value(a) == spec_nibble_value(b),
    ensures
        a =~= b,
    decreases a.len(),
{
    if a.len() == 0 {
    } else {
        lemma_nibble_value_bound(a.drop_last());
        lemma_nibble_value_bound(b.drop_last());
        vstd::arithmetic::power2::lemma2_to64();
        vstd::arithmetic::power2::lemma2_to64_rest();
        assert(vstd::arithmetic::power2::pow2((4 * (a.len() - 1)) as nat)
            <= vstd::arithmetic::power2::pow2(32)) by {
            if 4 * (a.len() - 1) < 32 {
                vstd::arithmetic::power2::lemma_pow2_strictly_increases(
                    (4 * (a.len() - 1)) as nat,
                    32,
                );
            }
        }
        let va = spec_nibble_value(a.drop_last()) as int;
        let vb = spec_nibble_value(b.drop_last()) as int;
        assert(spec_nibble_value(a) == va * 16 + a.last());
        assert(spec_nibble_value(b) == vb * 16 + b.last());
        assert(a.last() == b.last() && va == vb) by {
            vstd::arithmetic::div_mod::lemma_fundamental_div_mod_converse(
                va * 16 + a.last(),
                16,
                va,
                a.last() as int,
            );
            vstd::arithmetic::div_mod::lemma_fundamental_div_mod_converse(
                vb * 16 + b.last(),
                16,
                vb,
                b.last() as int,
            );
        }
        lemma_base16_unique(a.drop_last(), b.drop_last());
        assert(a =~= a.drop_last().push(a.last()));
        assert(b =~= b.drop_last().push(b.last()));
    }
}

/// Zero nibbles in front of a sequence do not change its value.
proof fn lemma_nibble_value_zero_prefix(j: nat, rest: Seq<u8>)
    ensures
        spec_nibble_value(Seq::new(j, |i: int| 0u8) + rest) == spec_nibble_value(rest),
    decreases j,
{
    if j == 0 {
        assert(Seq::new(0, |i: int| 0u8) + rest =~= rest);
    } else {
        let shorter = Seq::new((j - 1) as nat, |i: int| 0u8);
        assert(Seq::new(j, |i: int| 0u8) + rest =~= seq![0u8] + (shorter + rest));
        lemma_nibble_value_zero_head(shorter + rest);
        lemma_nibble_value_zero_prefix((j - 1) as nat, rest);
    }
}

/// Skipping leading zeroes removes exactly a zero prefix when what follows
/// starts with a nonzero nibble.
proof fn lemma_skip_zeros_prefix(j: nat, rest: Seq<u8>)
    requires
        rest.len() > 0,
        rest[0] != 0,
    ensures
        spec_skip_zeros(Seq::new(j, |i: int| 0u8) + rest) =~= rest,
    decreases j,
{
    if j == 0 {
        assert(Seq::new(0, |i: int| 0u8) + rest =~= rest);
    } else {
        let shorter = Seq::new((j - 1) as nat, |i: int| 0u8);
        assert((Seq::new(j, |i: int| 0u8) + rest).drop_first() =~= shorter + rest);
        lemma_skip_zeros_prefix((j - 1) as nat, rest);
    }
}

/// Barcode round trip, text first: canonical barcode text that parses
/// successfully is reproduced by formatting the parsed address.
#[verifier::rlimit(80)]
pub proof fn lemma_barcode_text_round_trip(s: Seq<u8>, a: Seq<u8>)
    requires
        spec_canonical_barcode(s),
        spec_barcode_parse(s) == Some(a),
    ensures
        spec_barcode_text(a) == s,
{
    let lead = match text::spec_hex_value(s[0]) {
        Some(v) => v,
        None => 0,
    };
    lemma_upper_hex_round_trip(s[0]);
    let middle = s.subrange(2, s.len() - 1);
    let k = middle.len();
    assert(2 <= k <= 9);
    lemma_hex_string_digit_values(middle);
    let mid_vals = spec_digit_values(middle);
    let rest_int = match spec_hex_string_value(middle) {
        Some(v) => v,
        None => 0,
    };
    assert(rest_int == spec_nibble_value(mid_vals) as int);
    lemma_nibble_value_bound(mid_vals);
    vstd::arithmetic::power2::lemma2_to64();
    vstd::arithmetic::power2::lemma2_to64_rest();
    assert(vstd::arithmetic::power2::pow2((4 * k) as nat) <= vstd::arithmetic::power2::pow2(36))
        by {
        if 4 * k < 36 {
            vstd::arithmetic::power2::lemma_pow2_strictly_increases((4 * k) as nat, 36);
        }
    }
    let rest = rest_int as u64;
    assert(rest < 0x1000000000);
    let v = ((rest | (((0x04c05b0u64 | (lead as u64)) << 36) as u64)) as u64);
    assert(a == spec_u64_bytes(v));
    let a0 = a[0];
    let a1 = a[1];
    let a2 = a[2];
    assert(a0 == (v >> 56) as u8 && a1 == ((v >> 48) & 0xff) as u8 && a2 == ((v >> 40)
        & 0xff) as u8);
    let b3 = a[3];
    let b4 = a[4];
    let b5 = a[5];
    let b6 = a[6];
    let b7 = a[7];
    let n0 = (b3 & 0xf) as u8;
    let n1 = (b4 >> 4) as u8;
    let n2 = (b4 & 0xf) as u8;
    let n3 = (b5 >> 4) as u8;
    let n4 = (b5 & 0xf) as u8;
    let n5 = (b6 >> 4) as u8;
    let n6 = (b6 & 0xf) as u8;
    let n7 = (b7 >> 4) as u8;
    let n8 = (b7 & 0xf) as u8;
    let nibs = spec_barcode_nibbles(a);
    assert(nibs =~= seq![n0, n1, n2, n3, n4, n5, n6, n7, n8]);
    let t1 = ((n0 as u64) * 16 + n1 as u64) as u64;
    let t2 = (t1 * 16 + n2 as u64) as u64;
    let t3 = (t2 * 16 + n3 as u64) as u64;
    let t4 = (t3 * 16 + n4 as u64) as u64;
    let t5 = (t4 * 16 + n5 as u64) as u64;
    let t6 = (t5 * 16 + n6 as u64) as u64;
    let t7 = (t6 * 16 + n7 as u64) as u64;
    let t8 = (t7 * 16 + n8 as u64) as u64;
    assert({
        &&& a0 == 0x04
        &&& a1 == 0xc0
        &&& a2 == 0x5b
        &&& (b3 >> 4) as u8 == lead
        &&& t8 == rest
    }) by (bit_vector)
        requires
            rest < 0x1000000000 && lead < 16 && v == ((rest | (((0x04c05b0u64 | (lead as u64))
                << 36) as u64)) as u64) && a0 == (v
                >> 56) as u8 && a1 == ((v >> 48) & 0xff) as u8 && a2 == ((v >> 40)
                & 0xff) as u8 && b3 == ((v >> 32) & 0xff) as u8 && b4 == ((v >> 24) & 0xff) as u8
                && b5 == ((v >> 16) & 0xff) as u8 && b6 == ((v >> 8) & 0xff) as u8 && b7 == (v
                & 0xff) as u8 && n0 == (b3 & 0xf) as u8 && n1 == (b4 >> 4) as u8 && n2 == (b4
                & 0xf) as u8 && n3 == (b5 >> 4) as u8 && n4 == (b5 & 0xf) as u8 && n5 == (b6
                >> 4) as u8 && n6 == (b6 & 0xf) as u8 && n7 == (b7 >> 4) as u8 && n8 == (b7
                & 0xf) as u8 && t1 == ((n0 as u64) * 16 + n1 as u64) as u64 && t2 == (t1 * 16
                + n2 as u64) as u64 && t3 == (t2 * 16 + n3 as u64) as u64 && t4 == (t3 * 16
                + n4 as u64) as u64 && t5 == (t4 * 16 + n5 as u64) as u64 && t6 == (t5 * 16
                + n6 as u64) as u64 && t7 == (t6 * 16 + n7 as u64) as u64 && t8 == (t7 * 16
                + n8 as u64) as u64,
    ;
    // the nibble value of the address equals the closed form
    assert(nibs.drop_last() =~= seq![n0, n1, n2, n3, n4, n5, n6, n7]);
    assert(seq![n0, n1, n2, n3, n4, n5, n6, n7].drop_last() =~= seq![n0, n1, n2, n3, n4, n5, n6]);
    assert(seq![n0, n1, n2, n3, n4, n5, n6].drop_last() =~= seq![n0, n1, n2, n3, n4, n5]);
    assert(seq![n0, n1, n2, n3, n4, n5].drop_last() =~= seq![n0, n1, n2, n3, n4]);
    assert(seq![n0, n1, n2, n3, n4].drop_last() =~= seq![n0, n1, n2, n3]);
    assert(seq![n0, n1, n2, n3].drop_last() =~= seq![n0, n1, n2]);
    assert(seq![n0, n1, n2].drop_last() =~= seq![n0, n1]);
    assert(seq![n0, n1].drop_last() =~= seq![n0]);
    assert(seq![n0].drop_last() =~= Seq::<u8>::empty());
    assert(spec_nibble_value(Seq::<u8>::empty()) == 0);
    assert(spec_nibble_value(seq![n0]) == n0);
    assert(spec_nibble_value(seq![n0, n1]) == t1);
    assert(spec_nibble_value(seq![n0, n1, n2]) == t2);
    assert(spec_nibble_value(seq![n0, n1, n2, n3]) == t3);
    assert(spec_nibble_value(seq![n0, n1, n2, n3, n4]) == t4);
    assert(spec_nibble_value(seq![n0, n1, n2, n3, n4, n5]) == t5);
    assert(spec_nibble_value(seq![n0, n1, n2, n3, n4, n5, n6]) == t6);
    assert(spec_nibble_value(seq![n0, n1, n2, n3, n4, n5, n6, n7]) == t7);
    assert(spec_nibble_value(nibs) == rest);
    assert(a[0] == 0x04 && a[1] == 0xc0 && a[2] == 0x5b);
    // the nibbles are the zero-padded digit values of the middle
    let padded = Seq::new((9 - k) as nat, |i: int| 0u8) + mid_vals;
    lemma_nibble_value_zero_prefix((9 - k) as nat, mid_vals);
    assert(spec_nibble_value(padded) == spec_nibble_value(mid_vals));
    assert(forall|i: int| 0 <= i < 9 ==> #[trigger] nibs[i] < 16) by {
        assert(n0 < 16 && n1 < 16 && n2 < 16 && n3 < 16 && n4 < 16 && n5 < 16 && n6 < 16 && n7
            < 16 && n8 < 16) by (bit_vector)
            requires
                n0 == (b3 & 0xf) as u8 && n1 == (b4 >> 4) as u8 && n2 == (b4 & 0xf) as u8 && n3
                    == (b5 >> 4) as u8 && n4 == (b5 & 0xf) as u8 && n5 == (b6 >> 4) as u8 && n6
                    == (b6 & 0xf) as u8 && n7 == (b7 >> 4) as u8 && n8 == (b7 & 0xf) as u8,
        ;
    }
    lemma_base16_unique(nibs, padded);
    // skipping the zero prefix leaves exactly the middle's digit values
    lemma_upper_hex_round_trip(s[2]);
    assert(mid_vals[0] != 0);
    lemma_skip_zeros_prefix((9 - k) as nat, mid_vals);
    assert(spec_skip_zeros(nibs) =~= mid_vals);
    // assemble the text
    assert(spec_has_barcode_prefix(a));
    assert(spec_barcode_text(a) =~= seq![text::spec_hex_upper((a[3] >> 4) as u8), 0x2du8]
        + spec_hex_digits(mid_vals) + seq![spec_check_char(spec_crc4(a))]);
    assert(text::spec_hex_upper((a[3] >> 4) as u8) == s[0]);
    assert(spec_hex_digits(mid_vals) =~= middle);
    assert(s.last() == spec_check_char(spec_crc4(a)));
    assert(spec_barcode_text(a) =~= s);
}

} // verus!
