use taptap::link::GatewayID;
use taptap::observer::event::{Gateway, Node, PowerReportEvent};
use taptap::observer::node_table::NodeTableBuilder;
use taptap::observer::slot_clock::SlotClock;
use taptap::observer::Observer;
use taptap::pv::application::{NodeTableResponseEntry, PowerReport, U12Pair};
use taptap::pv::network::NodeAddress;
use taptap::pv::slot_counter::InvalidSlotNumber;
use taptap::pv::{LongAddress, NodeID, SlotCounter, RSSI};
use taptap::transport::TransportEvent;

#[test]
fn smoke() {
    // Pick a time and call it "x".
    let x: i64 = 1_723_500_000_000;

    // Assume a gateway told us it's 0xc000.
    let mut clock = SlotClock::new(SlotCounter(0xc000), x).unwrap();

    // 0x8000 was one minute ago.
    assert_eq!(clock.get(SlotCounter(0x8000)), Ok(x - 60_000));
    // 0x4000 was two minutes ago.
    assert_eq!(clock.get(SlotCounter(0x4000)), Ok(x - 120_000));
    // 0x0000 was three minutes ago.
    assert_eq!(clock.get(SlotCounter(0x0000)), Ok(x - 180_000));
    // 0xc000 + 1000 was three minutes 55 seconds ago.
    assert_eq!(clock.get(SlotCounter(0xc000 + 1000)), Ok(x - (180_000 + 55_000)));

    // Advance to 0xc000 + 1000 at 5 seconds later.
    let later = x + 5_000;
    clock.set(SlotCounter(0xc000 + 1000), later).unwrap();

    // 0x8000 was one minute before x.
    assert_eq!(clock.get(SlotCounter(0x8000)), Ok(x - 60_000));
    // 0x4000 was two minutes before x.
    assert_eq!(clock.get(SlotCounter(0x4000)), Ok(x - 120_000));
    // 0x0000 was three minutes before x.
    assert_eq!(clock.get(SlotCounter(0x0000)), Ok(x - 180_000));
    // 0xc000 + 1000 is x + 5.
    assert_eq!(clock.get(SlotCounter(0xc000 + 1000)), Ok(x + 5_000));
}

#[test]
fn index_and_offset() {
    assert_eq!(SlotClock::index_and_offset(SlotCounter(0)), Ok((0, 0)));
    assert_eq!(SlotClock::index_and_offset(SlotCounter(999)), Ok((0, 999 * 5)));
    assert_eq!(SlotClock::index_and_offset(SlotCounter(1000)), Ok((1, 0)));
    assert_eq!(SlotClock::index_and_offset(SlotCounter(1999)), Ok((1, 999 * 5)));
    assert_eq!(SlotClock::index_and_offset(SlotCounter(2000)), Ok((2, 0)));
    assert_eq!(SlotClock::index_and_offset(SlotCounter(11999)), Ok((11, 999 * 5)));
    assert_eq!(
        SlotClock::index_and_offset(SlotCounter(12000)),
        Err(InvalidSlotNumber(12000))
    );
    assert_eq!(SlotClock::index_and_offset(SlotCounter(0x4000)), Ok((12, 0)));
    assert_eq!(SlotClock::index_and_offset(SlotCounter(0x4000 + 999)), Ok((12, 999 * 5)));
    assert_eq!(SlotClock::index_and_offset(SlotCounter(0x4000 + 1000)), Ok((13, 0)));
}

#[test]
fn clock_regression_rebuilds() {
    let x: i64 = 1_723_500_000_000;
    let mut clock = SlotClock::new(SlotCounter(0xc000), x).unwrap();
    // The wall clock steps backwards: the table is rebuilt around the new
    // observation.
    clock.set(SlotCounter(0x0000), x - 500_000).unwrap();
    assert_eq!(clock.get(SlotCounter(0x0000)), Ok(x - 500_000));
    assert_eq!(clock.get(SlotCounter(0xc000)), Ok(x - 500_000 - 60_000));
}

#[test]
fn negative_temperature() {
    let gateway = Gateway { id: GatewayID(1), address: None };
    let node = Node { id: NodeID(1), address: None, barcode: None };

    let rssi = RSSI(100);
    let timestamp: i64 = 1_723_500_000_000;
    let slot_counter = SlotCounter(0);
    let slot_clock = SlotClock::new(slot_counter, timestamp).unwrap();

    let power_report = PowerReport {
        voltage_in_and_voltage_out: U12Pair::pack(500, 250).unwrap(),
        dc_dc_duty_cycle: 255,
        current_and_temperature: U12Pair::pack(200, 0xfff).unwrap(),
        unknown: [0, 0, 0],
        slot_counter,
        rssi,
    };

    let event = PowerReportEvent::new(gateway, node, &slot_clock, &power_report).unwrap();

    // 25.0 V in, 25.0 V out, 1.00 A, full duty, -0.1 °C.
    assert_eq!(event.voltage_in_twentieths, 500);
    assert_eq!(event.voltage_out_tenths, 250);
    assert_eq!(event.current_two_hundredths, 200);
    assert_eq!(event.dc_dc_duty_cycle_255ths, 255);
    assert_eq!(event.temperature_tenths, -1);
    assert_eq!(event.rssi, rssi);
    assert_eq!(event.timestamp_ms, timestamp);
}

#[test]
fn node_table_pages_assemble() {
    let entry = |id: u16, last: u8| NodeTableResponseEntry {
        long_address: LongAddress([0x04, 0xC0, 0x5B, 0x40, 0x00, 0x9A, 0x57, last]),
        node_id: NodeAddress(id),
    };
    let mut builder = NodeTableBuilder::new();

    // First page starts at the zero boundary.
    assert!(builder.push(NodeAddress(0), &vec![entry(2, 0xA2), entry(3, 0xA3)]).is_none());
    // Second page continues at the successor of the largest node.
    assert!(builder.push(NodeAddress(4), &vec![entry(4, 0xA4)]).is_none());
    // The empty page is the terminator and commits the table.
    let table = builder.push(NodeAddress(5), &vec![]).unwrap();
    assert_eq!(table.len(), 3);
    assert_eq!(
        table.get(NodeID(3)),
        Some(LongAddress([0x04, 0xC0, 0x5B, 0x40, 0x00, 0x9A, 0x57, 0xA3]))
    );

    // A page at an unexpected boundary after a reset is ignored.
    assert!(builder.push(NodeAddress(7), &vec![entry(7, 0xA7)]).is_none());
    assert!(builder.push(NodeAddress(0), &vec![]).unwrap().len() == 0);
}

#[test]
fn enumeration_atomicity() {
    let mut observer = Observer::new();
    let now: i64 = 1_723_500_000_000;
    let enumeration_id = GatewayID(0x1235);
    let address = LongAddress([0x04, 0xC0, 0x5B, 0x30, 0x00, 0x02, 0xBE, 0x16]);

    // Before enumeration, identities go straight to persistent state.
    observer.handle_transport_event(
        TransportEvent::GatewayIdentityObserved { gateway_id: GatewayID(0x0042), address },
        now,
    );
    assert_eq!(observer.persistent_state().identity_count(), 1);

    // Enumeration starts: a transient record opens, and identities no longer
    // reach persistent state.
    observer.handle_transport_event(
        TransportEvent::EnumerationStarted { enumeration_gateway_id: enumeration_id },
        now,
    );
    assert!(observer.enumeration_state.is_some());

    // The transient enumeration address itself is discarded.
    observer.handle_transport_event(
        TransportEvent::GatewayIdentityObserved { gateway_id: enumeration_id, address },
        now,
    );
    // Two gateways respond under their persistent IDs.
    observer.handle_transport_event(
        TransportEvent::GatewayIdentityObserved { gateway_id: GatewayID(0x1201), address },
        now,
    );
    observer.handle_transport_event(
        TransportEvent::GatewayIdentityObserved { gateway_id: GatewayID(0x1202), address },
        now,
    );
    observer.handle_transport_event(
        TransportEvent::GatewayVersionObserved {
            gateway_id: GatewayID(0x1201),
            version: "Mgate Version G8.59\r".to_string(),
        },
        now,
    );

    // Mid-enumeration, the persistent state still shows the old world.
    assert_eq!(observer.persistent_state().identity_count(), 1);
    assert_eq!(observer.persistent_state().version_count(), 0);

    // Enumeration ends: the transient maps replace the persistent ones
    // atomically.
    observer.handle_transport_event(
        TransportEvent::EnumerationEnded { gateway_id: GatewayID(0x1201) },
        now,
    );
    assert!(observer.enumeration_state.is_none());
    assert_eq!(observer.persistent_state().identity_count(), 2);
    assert_eq!(observer.persistent_state().gateway_identity(GatewayID(0x1201)), Some(address));
    assert_eq!(observer.persistent_state().gateway_identity(GatewayID(0x1202)), Some(address));
    assert_eq!(observer.persistent_state().gateway_identity(GatewayID(0x0042)), None);
    assert_eq!(
        observer.persistent_state().gateway_version(GatewayID(0x1201)).map(|s| s.as_str()),
        Some("Mgate Version G8.59\r")
    );
}

#[test]
fn power_report_needs_a_slot_clock() {
    let mut observer = Observer::new();
    let now: i64 = 1_723_500_000_000;
    let report = PowerReport {
        voltage_in_and_voltage_out: U12Pair::pack(500, 250).unwrap(),
        dc_dc_duty_cycle: 255,
        current_and_temperature: U12Pair::pack(200, 1).unwrap(),
        unknown: [0, 0, 0],
        slot_counter: SlotCounter(0x2122),
        rssi: RSSI(100),
    };

    // Without a slot clock the report is discarded.
    assert!(observer.power_report(GatewayID(0x1201), NodeID(2), &report).is_none());

    // A receive request and response pair anchors the clock.
    observer.handle_transport_event(
        TransportEvent::GatewaySlotCounterCaptured { gateway_id: GatewayID(0x1201) },
        now,
    );
    observer.handle_transport_event(
        TransportEvent::GatewaySlotCounterObserved {
            gateway_id: GatewayID(0x1201),
            slot_counter: SlotCounter(0x2122),
        },
        now,
    );

    let event = observer.power_report(GatewayID(0x1201), NodeID(2), &report).unwrap();
    assert_eq!(event.timestamp_ms, now);
    assert_eq!(event.gateway.id, GatewayID(0x1201));
    assert_eq!(event.node.id, NodeID(2));

    // An invalid slot counter in the report is discarded.
    let mut invalid = report;
    invalid.slot_counter = SlotCounter(12000);
    assert!(observer.power_report(GatewayID(0x1201), NodeID(2), &invalid).is_none());
}
