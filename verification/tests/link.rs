use taptap::link::{
    escape,
    escaped_length,
    unescaped_byte,
    Address,
    Counters,
    Frame,
    GatewayID,
    LinkState,
    Receiver,
    Type,
};

const EXAMPLES: &[(&[u8], &[u8])] = &[
    (b"", b""),
    (b"~", b"\x7e\x00"),
    (b"hello", b"hello"),
    (b"~hello~", b"\x7e\x00hello\x7e\x00"),
    (
        b"\x7e\xa3\xa4\xa5\x23\x24\x25abcdef",
        b"\x7e\x00\x7e\x05\x7e\x04\x7e\x06\x7e\x02\x7e\x01\x7e\x03abcdef",
    ),
    (
        &[0x92, 0x01, 0x01, 0x49, 0x00, 0xFF, 0x7C, 0xDB, 0xC2, 0xA3, 0x85],
        &[0x92, 0x01, 0x01, 0x49, 0x00, 0xFF, 0x7C, 0xDB, 0xC2, 0x7E, 0x05, 0x85],
    ),
];

#[test]
fn test_escaped_length() {
    for (raw, escaped) in EXAMPLES.iter().copied() {
        assert_eq!(escaped_length(raw), escaped.len(), "{:?}", raw);
    }
}

#[test]
fn test_escape() {
    for (raw, escaped) in EXAMPLES.iter().copied() {
        let mut output = Vec::new();
        escape(raw, &mut output);
        assert_eq!(output, escaped, "{:?}", raw);
    }
}

#[test]
fn escaping_is_a_bijection() {
    for byte in [0x7eu8, 0x23, 0x24, 0x25, 0xa3, 0xa4, 0xa5] {
        let mut escaped = Vec::new();
        escape(&[byte], &mut escaped);
        assert_eq!(escaped.len(), 2);
        assert_eq!(escaped[0], 0x7e);
        assert_eq!(unescaped_byte(escaped[1]), Ok(byte));
    }
    for code in 0x00..=0x06u8 {
        let byte = unescaped_byte(code).unwrap();
        let mut escaped = Vec::new();
        escape(&[byte], &mut escaped);
        assert_eq!(escaped, vec![0x7e, code]);
    }
    assert!(unescaped_byte(0x07).is_err());
    assert!(unescaped_byte(0xff).is_err());
}

#[test]
fn frame_encoding() {
    let encoded = Frame {
        address: Address::FromGateway(GatewayID::new(0x1201).unwrap()),
        frame_type: Type(0x0149),
        payload: b"\x00\xFF\x7C\xDB\xC2".as_slice().into(),
    }
    .encode();

    assert_eq!(
        encoded.as_slice(),
        [
            0xFF, 0x7E, 0x07, 0x92, 0x01, 0x01, 0x49, 0x00, 0xFF, 0x7C, 0xDB, 0xC2, 0x7E, 0x05,
            0x85, 0x7E, 0x08
        ]
        .as_slice()
    );
}

#[test]
fn type_debug() {
    assert_eq!(Type(0x0149).debug_text(), "Type::RECEIVE_RESPONSE");
    assert_eq!(Type(0x1234).debug_text(), "Type(0x1234)");
}

#[test]
fn gateway_id() {
    assert_eq!(GatewayID::new(0), Ok(GatewayID(0)));
    assert_eq!(GatewayID::new(1), Ok(GatewayID(1)));
    assert_eq!(GatewayID::new(0x7fff), Ok(GatewayID(0x7fff)));
    assert_eq!(GatewayID::new(0x8000), Err(taptap::link::InvalidGatewayID(0x8000)));
    assert_eq!(GatewayID::new(0xffff), Err(taptap::link::InvalidGatewayID(0xffff)));

    assert_eq!(GatewayID(1).0, 1);

    assert_eq!(GatewayID(0x1201).text(), "0x1201");
}

#[test]
fn address() {
    assert_eq!(Address::from_bytes(0x12, 0x01), Address::ToGateway(GatewayID(0x1201)));
    assert_eq!(Address::from_bytes(0x92, 0x01), Address::FromGateway(GatewayID(0x1201)));

    assert_eq!([0x12, 0x01], Address::ToGateway(GatewayID(0x1201)).to_bytes());
    assert_eq!([0x92, 0x01], Address::FromGateway(GatewayID(0x1201)).to_bytes());
}

#[test]
fn address_fmt() {
    assert_eq!(GatewayID(0x1201).debug_text(), "GatewayID(0x1201)");
}

#[test]
fn happy_path() {
    let mut rx = Receiver::new();
    let mut frames = Vec::new();
    rx.extend_from_slice(
        &[
            0x00, 0xFF, 0xFF, 0x7E, 0x07, 0x12, 0x01, 0x01, 0x48, 0x00, 0x01, 0x18, 0x83, 0x04,
            0x17, 0x44, 0x7E, 0x08, 0xFF, 0x7E, 0x07, 0x92, 0x01, 0x01, 0x49, 0x00, 0xFE, 0x01,
            0x83, 0x5A, 0xDE, 0x07, 0x00, 0x0A, 0x01, 0x14, 0x63, 0x3A, 0x79, 0x26, 0x7E, 0x08,
            0x00, 0xFF, 0xFF, 0x7E, 0x07, 0x12, 0x01, 0x01, 0x48, 0x00, 0x01, 0x18, 0x84, 0x04,
            0x1F, 0x09, 0x7E, 0x08, 0xFF, 0x7E, 0x07, 0x92, 0x01, 0x01, 0x49, 0x00, 0xFF, 0x7C,
            0xDB, 0xC2, 0x7E, 0x05, 0x85, 0x7E, 0x08,
        ],
        &mut frames,
    );
    assert_eq!(rx.state, LinkState::Idle);
    assert_eq!(
        rx.counters,
        Counters { frames: 4, runts: 0, giants: 0, checksums: 0, noise: 0 }
    );
    assert_eq!(rx.buffer.len(), 0);

    assert_eq!(
        frames,
        vec![
            Frame {
                address: Address::ToGateway(GatewayID(0x1201)),
                frame_type: Type(0x0148),
                payload: b"\x00\x01\x18\x83\x04".as_slice().into(),
            },
            Frame {
                address: Address::FromGateway(GatewayID(0x1201)),
                frame_type: Type(0x0149),
                payload: b"\x00\xFE\x01\x83\x5A\xDE\x07\x00\x0A\x01\x14\x63\x3A".as_slice().into(),
            },
            Frame {
                address: Address::ToGateway(GatewayID(0x1201)),
                frame_type: Type(0x0148),
                payload: b"\x00\x01\x18\x84\x04".as_slice().into(),
            },
            Frame {
                address: Address::FromGateway(GatewayID(0x1201)),
                frame_type: Type(0x0149),
                payload: b"\x00\xFF\x7C\xDB\xC2".as_slice().into(),
            },
        ]
    );
}

#[test]
fn interframe_noise() {
    let mut rx = Receiver::new();
    let mut frames = Vec::new();
    rx.extend_from_slice(
        &[
            0xee, 0xee, 0xee, 0x00, 0xFF, 0xFF, 0x7E, 0x07, 0x12, 0x01, 0x01, 0x48, 0x00, 0x01,
            0x18, 0x83, 0x04, 0x17, 0x44, 0x7E, 0x08, 0x01, 0xFF, 0x7E, 0x07, 0x92, 0x01, 0x01,
            0x49, 0x00, 0xFE, 0x01, 0x83, 0x5A, 0xDE, 0x07, 0x00, 0x0A, 0x01, 0x14, 0x63, 0x3A,
            0x79, 0x26, 0x7E, 0x08, 0x23, 0x45, 0x67, 0x89, 0xab, 0xcd, 0xef, 0x00, 0xFF, 0xFF,
            0x7E, 0x07, 0x12, 0x01, 0x01, 0x48, 0x00, 0x01, 0x18, 0x84, 0x04, 0x1F, 0x09, 0x7E,
            0x08, 0x00, 0x00, 0x00, 0xff, 0xff, 0xff, 0xff, 0xff, 0xff, 0xFF, 0x7E, 0x07, 0x92,
            0x01, 0x01, 0x49, 0x00, 0xFF, 0x7C, 0xDB, 0xC2, 0x7E, 0x05, 0x85, 0x7E, 0x08,
        ],
        &mut frames,
    );
    assert_eq!(rx.state, LinkState::Idle);
    assert_eq!(
        rx.counters,
        Counters { frames: 4, runts: 0, giants: 0, checksums: 0, noise: 3 }
    );
    assert_eq!(rx.buffer.len(), 0);
}

#[test]
fn checksum() {
    let mut rx = Receiver::new();
    let mut frames = Vec::new();
    rx.extend_from_slice(
        &[
            0x00, 0xFF, 0xFF, 0x7E, 0x07, 0x12, 0x01, 0x01, 0x48, 0x00, 0x01, 0x18, 0x83, 0x04,
            0x17, 0x44, 0x7E, 0x08, 0xFF, 0x7E, 0x07, 0x92, 0x01, 0x01, 0x49, 0x00, 0xFE, 0x01,
            0x83, 0x5A, 0xDE, 0x07, 0x00, 0x0A, 0x01, 0x14, 0x63, 0x3A, 0x79, 0x25, 0x7E, 0x08,
            0x00, 0xFF, 0xFF, 0x7E, 0x07, 0x12, 0x01, 0x01, 0x48, 0x00, 0x01, 0x18, 0x84, 0x04,
            0x1e, 0x09, 0x7E, 0x08, 0xFF, 0x7E, 0x07, 0x92, 0x01, 0x01, 0x49, 0x00, 0xFF, 0x7C,
            0xDB, 0xC2, 0x7E, 0x05, 0x85, 0x7E, 0x08,
        ],
        &mut frames,
    );
    assert_eq!(rx.state, LinkState::Idle);
    assert_eq!(
        rx.counters,
        Counters { frames: 2, runts: 0, giants: 0, checksums: 2, noise: 0 }
    );
    assert_eq!(rx.buffer.len(), 0);
}

#[test]
fn intraframe_noise() {
    let mut rx = Receiver::new();
    let mut frames = Vec::new();
    rx.extend_from_slice(
        &[
            0x00, 0xFF, 0xFF, 0x7E, 0x07, 0x12, 0x01, 0x01, 0x48, 0x00, 0x01, 0x7e, 0x83, 0x04,
            0x17, 0x44, 0x7E, 0x08, 0xFF, 0x7E, 0x07, 0x92, 0x01, 0x01, 0x49, 0x00, 0xFE, 0x01,
            0x83, 0x5A, 0xDE, 0x07, 0x00, 0x0A, 0x01, 0x14, 0x63, 0x3A, 0x79, 0x7e, 0x7E, 0x08,
            0x00, 0xFF, 0xFF, 0x7E, 0x7e, 0x12, 0x01, 0x01, 0x48, 0x00, 0x01, 0x18, 0x84, 0x04,
            0x1F, 0x09, 0x7E, 0x08, 0xFF, 0x7E, 0x07, 0x92, 0x01, 0x01, 0x49, 0x00, 0xFF, 0x7C,
            0xDB, 0xC2, 0x7E, 0x05, 0x85, 0x7E, 0x08,
        ],
        &mut frames,
    );
    assert_eq!(rx.state, LinkState::Idle);
    assert_eq!(
        rx.counters,
        Counters { frames: 1, runts: 0, giants: 0, checksums: 0, noise: 6 }
    );
    assert_eq!(rx.buffer.len(), 0);
}

#[test]
fn runt() {
    let mut rx = Receiver::new();
    let mut frames = Vec::new();
    rx.extend_from_slice(
        &[
            // underlength frames
            0xFF, 0x7E, 0x07, 0x7E, 0x08, 0xFF, 0x7E, 0x07, 0x00, 0x7E, 0x08, 0xFF, 0x7E, 0x07,
            0x00, 0x00, 0x7E, 0x08, 0xFF, 0x7E, 0x07, 0x00, 0x00, 0x00, 0x7E, 0x08, 0xFF, 0x7E,
            0x07, 0x00, 0x00, 0x00, 0x00, 0x00, 0x7E, 0x08, // minimum length frame
            0xFF, 0x7E, 0x07, 0x00, 0x01, 0x00, 0x00, 0x89, 0xD0, 0x7E, 0x08,
        ],
        &mut frames,
    );
    assert_eq!(rx.state, LinkState::Idle);
    assert_eq!(
        rx.counters,
        Counters { frames: 1, runts: 5, giants: 0, checksums: 0, noise: 0 }
    );
    assert_eq!(rx.buffer.len(), 0);
}

#[test]
fn giant() {
    let mut rx = Receiver::new();
    let mut frames = Vec::new();
    rx.extend_from_slice(&[0x00, 0xFF, 0xFF, 0x7E, 0x07, 0x12, 0x01], &mut frames);
    rx.extend_from_slice(&vec![0u8; 1000], &mut frames);
    assert_eq!(rx.state, LinkState::Giant);
    rx.extend_from_slice(&[0x7E], &mut frames);
    assert_eq!(rx.state, LinkState::GiantEscape);
    rx.extend_from_slice(&[0x08], &mut frames);
    assert_eq!(rx.state, LinkState::Idle);
    assert_eq!(
        rx.counters,
        Counters { frames: 0, runts: 0, giants: 1, checksums: 0, noise: 0 }
    );
    assert_eq!(rx.buffer.len(), 0);
}

#[test]
fn frame_round_trip_through_receiver() {
    let frame = Frame {
        address: Address::FromGateway(GatewayID(0x1201)),
        frame_type: Type(0x0149),
        payload: b"\x00\xFF\x7C\xDB\xC2".as_slice().into(),
    };
    let encoded = frame.encode();

    let mut rx = Receiver::new();
    let mut frames = Vec::new();
    rx.extend_from_slice(&encoded, &mut frames);

    assert_eq!(frames, vec![frame]);
    assert_eq!(
        rx.counters,
        Counters { frames: 1, runts: 0, giants: 0, checksums: 0, noise: 0 }
    );
}
