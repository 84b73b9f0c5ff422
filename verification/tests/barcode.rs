use taptap::barcode::{crc as barcode_crc, Barcode};
use taptap::pv::LongAddress;

const ADDR: LongAddress = LongAddress([0x04, 0xC0, 0x5B, 0x40, 0x00, 0x9A, 0x57, 0xA2]);
const BARCODE: &str = "4-9A57A2L";

#[test]
fn crc() {
    assert_eq!(
        barcode_crc(&LongAddress([0x04, 0xC0, 0x5B, 0x40, 0x00, 0x9A, 0x57, 0xA2])),
        'L' as u8
    );
    assert_eq!(
        barcode_crc(&LongAddress([0x04, 0xC0, 0x5B, 0x40, 0x00, 0x79, 0xAC, 0x16])),
        'V' as u8
    );
    assert_eq!(
        barcode_crc(&LongAddress([0x04, 0xC0, 0x5B, 0x40, 0x00, 0x79, 0xAB, 0x99])),
        'W' as u8
    );
}

#[test]
fn display() {
    assert_eq!(Barcode(ADDR).text(), BARCODE);
}

#[test]
fn parse() {
    assert_eq!(Barcode::parse(b"4-9A57A2L").unwrap().0, ADDR);
    assert!(Barcode::parse(b"4-9A57A2G").is_err());
}

#[test]
fn long_address_conversion() {
    assert_eq!(ADDR.barcode().0, ADDR);
    assert_eq!(Barcode(ADDR).0, ADDR);
}

#[test]
fn crc_output_stays_in_alphabet() {
    // The check character lies in the sixteen-character alphabet for every
    // input tried, including ones far from the manufacturer prefix.
    let alphabet = b"GHJKLMNPRSTVWXYZ";
    for seed in 0..=255u8 {
        let addr = LongAddress([
            seed,
            seed.wrapping_mul(7),
            seed.wrapping_add(13),
            0xFF ^ seed,
            seed / 2,
            seed.wrapping_mul(31),
            0xA5,
            seed,
        ]);
        assert!(alphabet.contains(&barcode_crc(&addr)));
    }
}

#[test]
fn non_prefixed_address_prints_as_hex() {
    let addr = LongAddress([0x01, 0x02, 0x03, 0x40, 0x00, 0x9A, 0x57, 0xA2]);
    assert_eq!(Barcode(addr).text(), "01:02:03:40:00:9A:57:A2");
}

#[test]
fn parse_round_trip_examples() {
    for addr in [
        LongAddress([0x04, 0xC0, 0x5B, 0x40, 0x00, 0x9A, 0x57, 0xA2]),
        LongAddress([0x04, 0xC0, 0x5B, 0x30, 0x00, 0x02, 0xBE, 0x16]),
        LongAddress([0x04, 0xC0, 0x5B, 0x40, 0x00, 0x79, 0xAC, 0x16]),
        LongAddress([0x04, 0xC0, 0x5B, 0xF0, 0x00, 0x00, 0x00, 0x55]),
    ] {
        let text = Barcode(addr).text();
        assert_eq!(Barcode::parse(text.as_bytes()).unwrap().0, addr);
    }
}

#[test]
fn parse_rejects_malformed_text() {
    assert!(Barcode::parse(b"").is_err());
    assert!(Barcode::parse(b"4-9L").is_err());
    assert!(Barcode::parse(b"49A57A2L").is_err());
    assert!(Barcode::parse(b"X-9A57A2L").is_err());
    assert!(Barcode::parse(b"4-9A5ZA2L").is_err());
}
