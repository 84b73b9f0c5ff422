use taptap::pv::network::NodeAddress;
use taptap::pv::slot_counter::{InvalidSlotNumber, SlotEpoch, SlotNumber};
use taptap::pv::{NodeID, SlotCounter, U12Pair};

#[test]
fn roundtrip() {
    let slot = SlotCounter(0x0000);
    assert_eq!(slot.epoch(), SlotEpoch::Epoch0);
    assert_eq!(slot.slot_number(), Ok(SlotNumber(0)));
    assert_eq!(SlotCounter::new(SlotEpoch::Epoch0, SlotNumber::new(0).unwrap()), slot);

    let slot = SlotCounter(0x2edf);
    assert_eq!(slot.epoch(), SlotEpoch::Epoch0);
    assert_eq!(slot.slot_number(), Ok(SlotNumber(11999)));
    assert_eq!(SlotCounter::new(SlotEpoch::Epoch0, SlotNumber::new(11999).unwrap()), slot);

    let slot = SlotCounter(0x2ee0);
    assert_eq!(slot.epoch(), SlotEpoch::Epoch0);
    assert_eq!(slot.slot_number(), Err(InvalidSlotNumber(0x2ee0)));
}

#[test]
fn slots_since() {
    assert_eq!(SlotCounter(0x0000).slots_since(&SlotCounter(0xeedf)), Ok(1));
    assert_eq!(SlotCounter(0x4000).slots_since(&SlotCounter(0xeedf)), Ok(12001));
    assert_eq!(SlotCounter(0x8000).slots_since(&SlotCounter(0xeedf)), Ok(24001));
    assert_eq!(SlotCounter(0xc000).slots_since(&SlotCounter(0xeedf)), Ok(36001));

    assert_eq!(SlotCounter(0xeedf).slots_since(&SlotCounter(0xc000)), Ok(11999));
    assert_eq!(SlotCounter(0xeedf).slots_since(&SlotCounter(0x8000)), Ok(23999));
    assert_eq!(SlotCounter(0xeedf).slots_since(&SlotCounter(0x4000)), Ok(35999));
    assert_eq!(SlotCounter(0xeedf).slots_since(&SlotCounter(0x0000)), Ok(47999));

    assert_eq!(SlotCounter(0x6edf).slots_since(&SlotCounter(0x4000)), Ok(11999));
    assert_eq!(SlotCounter(0x6edf).slots_since(&SlotCounter(0x0000)), Ok(23999));
    assert_eq!(SlotCounter(0x6edf).slots_since(&SlotCounter(0xc000)), Ok(35999));
    assert_eq!(SlotCounter(0x6edf).slots_since(&SlotCounter(0x8000)), Ok(47999));

    assert_eq!(SlotCounter(0x0100).slots_since(&SlotCounter(0x0080)), Ok(128));
    assert_eq!(SlotCounter(0x0100).slots_since(&SlotCounter(0xc080)), Ok(12128));
    assert_eq!(SlotCounter(0x0100).slots_since(&SlotCounter(0x8080)), Ok(24128));
    assert_eq!(SlotCounter(0x0100).slots_since(&SlotCounter(0x4080)), Ok(36128));
}

#[test]
fn node_id() {
    assert_eq!(NodeID::gateway(), NodeID::new(1).unwrap());
    assert_eq!(NodeID::max(), NodeID::new(65535).unwrap());

    assert_eq!(NodeID::gateway().successor(), Some(NodeID(2)));
    assert_eq!(NodeID::max().successor(), None);

    assert_eq!(NodeAddress::gateway().node_id(), Some(NodeID::gateway()));
    assert_eq!(NodeAddress(0).node_id(), None);
    assert_eq!(NodeID::new(0), None);

    assert_eq!(NodeID::gateway().debug_text(), "NodeID(0x0001)");
    assert_eq!(NodeID::gateway().text(), "0x0001");
}

#[test]
fn u12_pair() {
    let pair = U12Pair([0x2b, 0x61, 0x58]);
    assert_eq!(pair.unpack(), (0x2b6, 0x158));
    assert_eq!(U12Pair::pack(0x2b6, 0x158).unwrap().0, pair.0);
}

#[test]
fn u12_pair_rejects_oversize_values() {
    assert!(U12Pair::pack(0x1000, 0).is_none());
    assert!(U12Pair::pack(0, 0x1000).is_none());
    assert_eq!(U12Pair::pack(0xfff, 0xfff).unwrap().unpack(), (0xfff, 0xfff));
    assert_eq!(U12Pair::pack(0, 0).unwrap().unpack(), (0, 0));
}

#[test]
fn epoch_arithmetic() {
    assert_eq!(SlotEpoch::Epoch0.index(), 0);
    assert_eq!(SlotEpoch::EpochC.index(), 3);
    assert_eq!(SlotEpoch::EpochC.plus(1), SlotEpoch::Epoch0);
    assert_eq!(SlotEpoch::Epoch4.plus(6), SlotEpoch::EpochC);
}
