//! The observer: fuses the decoded event stream into persistent per-gateway
//! state — identities, versions, node tables — and a slot clock per gateway,
//! and stamps power reports with absolute time.

pub mod event;
pub mod node_table;
pub mod slot_clock;

pub use node_table::{NodeTable, NodeTableBuilder};
pub use slot_clock::SlotClock;

use crate::barcode::Barcode;
use crate::link::GatewayID;
use crate::pv::application::{AppEvent, NodeTableResponseEntry, PowerReport};
use crate::pv::network::NodeAddress;
use crate::pv::slot_counter::{spec_counter_valid, SlotCounter};
use crate::pv::{LongAddress, NodeID};
use crate::transport::TransportEvent;
use event::{Event, Gateway, Node, PowerReportEvent};
use node_table::spec_push_rel;
use slot_clock::{spec_clock_of, spec_index, spec_offset, spec_set_rel, spec_time_ok};
use std::collections::BTreeMap;
use vstd::prelude::*;

verus! {

/// Persistent state of an observed network: information like hardware
/// addresses and version numbers is exchanged infrequently, so it is
/// captured and kept.
pub struct PersistentState {
    pub gateway_node_tables: BTreeMap<u16, NodeTable>,
    pub gateway_identities: BTreeMap<u16, LongAddress>,
    pub gateway_versions: BTreeMap<u16, String>,
}

impl PersistentState {
    /// An empty state.
    pub fn new() -> (r: PersistentState)
        ensures
            r.gateway_node_tables@ == Map::<u16, NodeTable>::empty(),
            r.gateway_identities@ == Map::<u16, LongAddress>::empty(),
            r.gateway_versions@ == Map::<u16, String>::empty(),
    {
        PersistentState {
            gateway_node_tables: BTreeMap::new(),
            gateway_identities: BTreeMap::new(),
            gateway_versions: BTreeMap::new(),
        }
    }

    /// The hardware address of a gateway, if known.
    pub fn gateway_identity(&self, id: GatewayID) -> (r: Option<LongAddress>)
        ensures
            self.gateway_identities@.contains_key(id.0) ==> r == Some(
                self.gateway_identities@[id.0],
            ),
            !self.gateway_identities@.contains_key(id.0) ==> r is None,
    {
        match self.gateway_identities.get(&id.0) {
            Some(a) => Some(*a),
            None => None,
        }
    }

    /// The version text of a gateway, if known.
    pub fn gateway_version(&self, id: GatewayID) -> (r: Option<&String>)
        ensures
            self.gateway_versions@.contains_key(id.0) ==> r == Some(&self.gateway_versions@[id.0]),
            !self.gateway_versions@.contains_key(id.0) ==> r is None,
    {
        self.gateway_versions.get(&id.0)
    }

    /// The number of gateways with a known hardware address.
    pub fn identity_count(&self) -> (r: usize)
        ensures
            r == self.gateway_identities@.dom().len(),
    {
        self.gateway_identities.len()
    }

    /// The number of gateways with a known version.
    pub fn version_count(&self) -> (r: usize)
        ensures
            r == self.gateway_versions@.dom().len(),
    {
        self.gateway_versions.len()
    }

    /// The node table of a gateway, if one has been assembled.
    pub fn gateway_node_table(&self, id: GatewayID) -> (r: Option<&NodeTable>)
        ensures
            self.gateway_node_tables@.contains_key(id.0) ==> r == Some(
                &self.gateway_node_tables@[id.0],
            ),
            !self.gateway_node_tables@.contains_key(id.0) ==> r is None,
    {
        self.gateway_node_tables.get(&id.0)
    }
}

/// The gateway information gathered while an enumeration is in progress; it
/// replaces the persistent maps when the enumeration completes.
pub struct EnumerationState {
    pub enumeration_gateway_id: GatewayID,
    pub gateway_identities: BTreeMap<u16, LongAddress>,
    pub gateway_versions: BTreeMap<u16, String>,
}

impl EnumerationState {
    /// Record an identity observed during enumeration, discarding the
    /// transient enumeration address itself: a gateway answering under it
    /// will shortly reappear under its persistent ID.
    pub fn gateway_identity_observed(&mut self, gateway: GatewayID, address: LongAddress)
        ensures
            final(self).enumeration_gateway_id == old(self).enumeration_gateway_id,
            final(self).gateway_versions@ == old(self).gateway_versions@,
            gateway == old(self).enumeration_gateway_id ==> final(self).gateway_identities@ == old(
                self,
            ).gateway_identities@,
            gateway != old(self).enumeration_gateway_id ==> final(self).gateway_identities@ == old(
                self,
            ).gateway_identities@.insert(gateway.0, address),
    {
        if gateway.0 == self.enumeration_gateway_id.0 {
            return ;
        }
        self.gateway_identities.insert(gateway.0, address);
    }
}

/// An observer, monitoring a controller interacting with one or more
/// gateways.
pub struct Observer {
    pub persistent_state: PersistentState,
    pub enumeration_state: Option<EnumerationState>,
    pub captured_slot_counters: BTreeMap<u16, i64>,
    pub slot_clocks: BTreeMap<u16, SlotClock>,
    pub node_table_builders: BTreeMap<u16, NodeTableBuilder>,
}

/// Whether two observers hold the same persistent state.
pub open spec fn spec_ps_eq(a: PersistentState, b: PersistentState) -> bool {
    &&& a.gateway_node_tables@ == b.gateway_node_tables@
    &&& a.gateway_identities@ == b.gateway_identities@
    &&& a.gateway_versions@ == b.gateway_versions@
}

/// Whether two observers hold the same enumeration state.
pub open spec fn spec_enum_eq(a: Option<EnumerationState>, b: Option<EnumerationState>) -> bool {
    match (a, b) {
        (None, None) => true,
        (Some(x), Some(y)) => {
            &&& x.enumeration_gateway_id == y.enumeration_gateway_id
            &&& x.gateway_identities@ == y.gateway_identities@
            &&& x.gateway_versions@ == y.gateway_versions@
        },
        _ => false,
    }
}

/// How an enumeration start changes an observer: a fresh transient record
/// opens; everything else is kept.
pub open spec fn rel_enumeration_started(
    pre: Observer,
    post: Observer,
    enumeration_gateway_id: GatewayID,
) -> bool {
    &&& post.enumeration_state matches Some(e) && e.enumeration_gateway_id
        == enumeration_gateway_id && e.gateway_identities@ == Map::<u16, LongAddress>::empty()
        && e.gateway_versions@ == Map::<u16, String>::empty()
    &&& spec_ps_eq(post.persistent_state, pre.persistent_state)
    &&& post.captured_slot_counters@ == pre.captured_slot_counters@
    &&& post.slot_clocks@ == pre.slot_clocks@
    &&& post.node_table_builders@ == pre.node_table_builders@
}

/// How an observed gateway identity changes an observer: into the transient
/// record during enumeration (discarding the transient enumeration address),
/// straight into persistent state otherwise.
pub open spec fn rel_gateway_identity_observed(
    pre: Observer,
    post: Observer,
    gateway_id: GatewayID,
    address: LongAddress,
) -> bool {
    &&& post.persistent_state.gateway_node_tables@ == pre.persistent_state.gateway_node_tables@
    &&& post.persistent_state.gateway_versions@ == pre.persistent_state.gateway_versions@
    &&& post.captured_slot_counters@ == pre.captured_slot_counters@
    &&& post.slot_clocks@ == pre.slot_clocks@
    &&& post.node_table_builders@ == pre.node_table_builders@
    &&& match pre.enumeration_state {
        Some(e) => {
            &&& post.persistent_state.gateway_identities@ == pre.persistent_state.gateway_identities@
            &&& post.enumeration_state matches Some(e2)
                && e2.enumeration_gateway_id == e.enumeration_gateway_id
                && e2.gateway_versions@ == e.gateway_versions@ && (if gateway_id
                == e.enumeration_gateway_id {
                e2.gateway_identities@ == e.gateway_identities@
            } else {
                e2.gateway_identities@ == e.gateway_identities@.insert(
                    gateway_id.0,
                    address,
                )
            })
        },
        None => {
            &&& post.enumeration_state is None
            &&& post.persistent_state.gateway_identities@ == pre.persistent_state.gateway_identities@.insert(gateway_id.0, address)
        },
    }
}

/// How an observed gateway version changes an observer: into the transient
/// record during enumeration, straight into persistent state otherwise.
pub open spec fn rel_gateway_version_observed(
    pre: Observer,
    post: Observer,
    gateway_id: GatewayID,
    version: String,
) -> bool {
    &&& post.persistent_state.gateway_node_tables@ == pre.persistent_state.gateway_node_tables@
    &&& post.persistent_state.gateway_identities@ == pre.persistent_state.gateway_identities@
    &&& post.captured_slot_counters@ == pre.captured_slot_counters@
    &&& post.slot_clocks@ == pre.slot_clocks@
    &&& post.node_table_builders@ == pre.node_table_builders@
    &&& match pre.enumeration_state {
        Some(e) => {
            &&& post.persistent_state.gateway_versions@ == pre.persistent_state.gateway_versions@
            &&& post.enumeration_state matches Some(e2)
                && e2.enumeration_gateway_id == e.enumeration_gateway_id
                && e2.gateway_identities@ == e.gateway_identities@
                && e2.gateway_versions@ == e.gateway_versions@.insert(
                gateway_id.0,
                version,
            )
        },
        None => {
            &&& post.enumeration_state is None
            &&& post.persistent_state.gateway_versions@ == pre.persistent_state.gateway_versions@.insert(gateway_id.0, version)
        },
    }
}

/// How an enumeration end changes an observer: the transient identities and
/// versions, if a transient record is open, replace the persistent maps
/// atomically.
pub open spec fn rel_enumeration_ended(
    pre: Observer,
    post: Observer,
) -> bool {
    &&& post.enumeration_state is None
    &&& post.persistent_state.gateway_node_tables@ == pre.persistent_state.gateway_node_tables@
    &&& post.captured_slot_counters@ == pre.captured_slot_counters@
    &&& post.slot_clocks@ == pre.slot_clocks@
    &&& post.node_table_builders@ == pre.node_table_builders@
    &&& match pre.enumeration_state {
        Some(e) => post.persistent_state.gateway_identities@
            == e.gateway_identities@ && post.persistent_state.gateway_versions@
            == e.gateway_versions@,
        None => spec_ps_eq(post.persistent_state, pre.persistent_state),
    }
}

/// How an observed slot counter value changes an observer: paired with the
/// pending capture time, it seeds or updates the gateway's slot clock.
pub open spec fn rel_slot_counter_observed(
    pre: Observer,
    post: Observer,
    gateway_id: GatewayID,
    slot_counter: SlotCounter,
) -> bool {
    let captured = pre.captured_slot_counters@;
    if !captured.contains_key(gateway_id.0) {
        &&& post.captured_slot_counters@ == captured
        &&& post.slot_clocks@ == pre.slot_clocks@
    } else {
        let t = captured[gateway_id.0];
        &&& post.captured_slot_counters@ == captured.remove(gateway_id.0)
        &&& if !spec_counter_valid(slot_counter.0) {
            post.slot_clocks@ == pre.slot_clocks@
        } else if pre.slot_clocks@.contains_key(gateway_id.0) {
            post.slot_clocks@.contains_key(gateway_id.0) && spec_set_rel(
                pre.slot_clocks@[gateway_id.0],
                post.slot_clocks@[gateway_id.0],
                slot_counter,
                t,
            ) && post.slot_clocks@.remove(gateway_id.0) == pre.slot_clocks@.remove(gateway_id.0)
        } else {
            post.slot_clocks@.contains_key(gateway_id.0) && spec_clock_of(
                post.slot_clocks@[gateway_id.0],
                slot_counter,
                t,
            ) && post.slot_clocks@.remove(gateway_id.0) == pre.slot_clocks@.remove(gateway_id.0)
        }
    }
}

/// How a node table page changes an observer: the page folds into the
/// gateway's builder, and a terminator page commits the assembled table.
pub open spec fn rel_node_table_page(
    pre: Observer,
    post: Observer,
    gateway_id: GatewayID,
    nodes: Seq<NodeTableResponseEntry>,
    start_address: NodeAddress,
) -> bool {
    let builders = pre.node_table_builders@;
    exists|b0: NodeTableBuilder, b2: NodeTableBuilder, r: Option<NodeTable>|
        {
            &&& if builders.contains_key(gateway_id.0) {
                b0 == builders[gateway_id.0]
            } else {
                b0.expected_next is None && b0.table@ == Map::<
                    u16,
                    LongAddress,
                >::empty() && b0.largest is None
            }
            &&& #[trigger] spec_push_rel(b0, b2, start_address, nodes, r)
            &&& post.node_table_builders@ == builders.insert(gateway_id.0, b2)
            &&& match r {
                Some(t) => post.persistent_state.gateway_node_tables@ == pre.persistent_state.gateway_node_tables@.insert(gateway_id.0, t),
                None => post.persistent_state.gateway_node_tables@ == pre.persistent_state.gateway_node_tables@,
            }
        }
}

/// How a slot-counter capture changes an observer: the capture time is
/// recorded for the gateway; everything else is kept.
pub open spec fn rel_slot_counter_captured(
    pre: Observer,
    post: Observer,
    gateway_id: GatewayID,
    now_ms: i64,
) -> bool {
    &&& post.captured_slot_counters@ == pre.captured_slot_counters@.insert(gateway_id.0, now_ms)
    &&& spec_ps_eq(post.persistent_state, pre.persistent_state)
    &&& spec_enum_eq(post.enumeration_state, pre.enumeration_state)
    &&& post.slot_clocks@ == pre.slot_clocks@
    &&& post.node_table_builders@ == pre.node_table_builders@
}

/// How one transport event changes an observer, by event kind; packet and
/// command events leave the observer unchanged.
pub open spec fn rel_transport_event(
    pre: Observer,
    post: Observer,
    event: TransportEvent,
    now_ms: i64,
) -> bool {
    match event {
        TransportEvent::EnumerationStarted { enumeration_gateway_id } => rel_enumeration_started(
            pre,
            post,
            enumeration_gateway_id,
        ),
        TransportEvent::GatewayIdentityObserved { gateway_id, address } => {
            rel_gateway_identity_observed(pre, post, gateway_id, address)
        },
        TransportEvent::GatewayVersionObserved { gateway_id, version } => {
            rel_gateway_version_observed(pre, post, gateway_id, version)
        },
        TransportEvent::EnumerationEnded { .. } => rel_enumeration_ended(pre, post),
        TransportEvent::GatewaySlotCounterCaptured { gateway_id } => rel_slot_counter_captured(
            pre,
            post,
            gateway_id,
            now_ms,
        ),
        TransportEvent::GatewaySlotCounterObserved { gateway_id, slot_counter } => {
            rel_slot_counter_observed(pre, post, gateway_id, slot_counter)
        },
        TransportEvent::PacketReceived { .. } => spec_obs_eq(pre, post),
        TransportEvent::CommandExecuted { .. } => spec_obs_eq(pre, post),
    }
}

/// What stamping a power report yields: nothing without a slot clock for
/// the gateway or with an invalid slot counter, otherwise the stamped event
/// with the unpacked measurements.
pub open spec fn rel_power_report(
    obs: Observer,
    gateway_id: GatewayID,
    pv_node_id: NodeID,
    report: PowerReport,
    r: Option<PowerReportEvent>,
) -> bool {
    if !obs.slot_clocks@.contains_key(gateway_id.0) || !spec_counter_valid(
        report.slot_counter.0,
    ) {
        r is None
    } else {
        let clock = obs.slot_clocks@[gateway_id.0];
        r matches Some(e) && e.gateway == obs.spec_gateway(gateway_id) && e.node
            == obs.spec_node(gateway_id, pv_node_id) && e.timestamp_ms == clock.times@[spec_index(
            report.slot_counter.0,
        )] + spec_offset(report.slot_counter.0) && e.voltage_in_twentieths
            == crate::pv::application::spec_u12_first(
            report.voltage_in_and_voltage_out.0[0],
            report.voltage_in_and_voltage_out.0[1],
        ) && e.voltage_out_tenths == crate::pv::application::spec_u12_second(
            report.voltage_in_and_voltage_out.0[1],
            report.voltage_in_and_voltage_out.0[2],
        ) && e.current_two_hundredths == crate::pv::application::spec_u12_first(
            report.current_and_temperature.0[0],
            report.current_and_temperature.0[1],
        ) && e.temperature_tenths == event::spec_sign_extend_12(
            crate::pv::application::spec_u12_second(
                report.current_and_temperature.0[1],
                report.current_and_temperature.0[2],
            ),
        ) && e.dc_dc_duty_cycle_255ths == report.dc_dc_duty_cycle && e.rssi == report.rssi
    }
}

/// Whether two observers hold the same state, compared by content.
pub open spec fn spec_obs_eq(a: Observer, b: Observer) -> bool {
    &&& spec_ps_eq(a.persistent_state, b.persistent_state)
    &&& spec_enum_eq(a.enumeration_state, b.enumeration_state)
    &&& a.captured_slot_counters@ == b.captured_slot_counters@
    &&& a.slot_clocks@ == b.slot_clocks@
    &&& a.node_table_builders@ == b.node_table_builders@
}

impl Observer {
    /// Well-formedness: every captured timestamp is far from the
    /// representable extremes, every slot clock has its 48 entries, and
    /// every builder tracks its largest key.
    pub open spec fn wf(self) -> bool {
        &&& forall|k: u16|
            self.captured_slot_counters@.contains_key(k) ==> spec_time_ok(
                #[trigger] self.captured_slot_counters@[k] as int,
            )
        &&& forall|k: u16|
            self.slot_clocks@.contains_key(k) ==> (#[trigger] self.slot_clocks@[k]).wf()
        &&& forall|k: u16|
            self.node_table_builders@.contains_key(k) ==> (
            #[trigger] self.node_table_builders@[k]).wf()
    }

    /// Instantiate an observer around existing persistent state.
    pub fn from_persistent_state(persistent_state: PersistentState) -> (r: Observer)
        ensures
            r.wf(),
            r.persistent_state == persistent_state,
            r.enumeration_state is None,
            r.captured_slot_counters@ == Map::<u16, i64>::empty(),
            r.slot_clocks@ == Map::<u16, SlotClock>::empty(),
            r.node_table_builders@ == Map::<u16, NodeTableBuilder>::empty(),
    {
        Observer {
            persistent_state,
            enumeration_state: None,
            captured_slot_counters: BTreeMap::new(),
            slot_clocks: BTreeMap::new(),
            node_table_builders: BTreeMap::new(),
        }
    }

    /// Instantiate an observer with empty persistent state.
    pub fn new() -> (r: Observer)
        ensures
            r.wf(),
            r.enumeration_state is None,
            r.persistent_state.gateway_node_tables@ == Map::<u16, NodeTable>::empty(),
            r.persistent_state.gateway_identities@ == Map::<u16, LongAddress>::empty(),
            r.persistent_state.gateway_versions@ == Map::<u16, String>::empty(),
            r.captured_slot_counters@ == Map::<u16, i64>::empty(),
            r.slot_clocks@ == Map::<u16, SlotClock>::empty(),
            r.node_table_builders@ == Map::<u16, NodeTableBuilder>::empty(),
    {
        Observer::from_persistent_state(PersistentState::new())
    }

    /// The persistent state gathered so far.
    pub fn persistent_state(&self) -> (r: &PersistentState)
        ensures
            r == self.persistent_state,
    {
        &self.persistent_state
    }

    /// The gateway a power report names: its ID, and its address when known.
    pub open spec fn spec_gateway(self, id: GatewayID) -> Gateway {
        Gateway {
            id,
            address: if self.persistent_state.gateway_identities@.contains_key(id.0) {
                Some(self.persistent_state.gateway_identities@[id.0])
            } else {
                None
            },
        }
    }

    /// The node a power report names: its ID, and its address and barcode
    /// when the gateway's node table knows it.
    pub open spec fn spec_node(self, gateway_id: GatewayID, id: NodeID) -> Node {
        let address: Option<LongAddress> = if self.persistent_state.gateway_node_tables@.contains_key(
            gateway_id.0,
        ) && self.persistent_state.gateway_node_tables@[gateway_id.0]@.contains_key(id.0) {
            Some(self.persistent_state.gateway_node_tables@[gateway_id.0]@[id.0])
        } else {
            None
        };
        Node {
            id,
            address,
            barcode: match address {
                Some(a) => Some(Barcode(a)),
                None => None,
            },
        }
    }

    /// Name a gateway for an event.
    pub fn gateway(&self, id: GatewayID) -> (r: Gateway)
        ensures
            r == self.spec_gateway(id),
    {
        let address = self.persistent_state.gateway_identity(id);
        Gateway { id, address }
    }

    /// Name a node for an event.
    pub fn node(&self, gateway_id: GatewayID, id: NodeID) -> (r: Node)
        ensures
            r == self.spec_node(gateway_id, id),
    {
        let address: Option<LongAddress> = match self.persistent_state.gateway_node_table(
            gateway_id,
        ) {
            Some(table) => table.get(id),
            None => None,
        };
        let barcode = match address {
            Some(a) => Some(Barcode(a)),
            None => None,
        };
        Node { id, address, barcode }
    }

    /// Enumeration started: open a transient record for the identities and
    /// versions it will gather.
    pub fn enumeration_started(&mut self, enumeration_gateway_id: GatewayID)
        requires
            old(self).wf(),
        ensures
            final(self).wf(),
            rel_enumeration_started(*old(self), *final(self), enumeration_gateway_id),
    {
        self.enumeration_state = Some(
            EnumerationState {
                enumeration_gateway_id,
                gateway_identities: BTreeMap::new(),
                gateway_versions: BTreeMap::new(),
            },
        );
    }

    /// A gateway's identity was observed: during enumeration it goes to the
    /// transient record, which discards the transient enumeration address;
    /// otherwise it goes straight to persistent state.
    pub fn gateway_identity_observed(&mut self, gateway_id: GatewayID, address: LongAddress)
        requires
            old(self).wf(),
        ensures
            final(self).wf(),
            rel_gateway_identity_observed(*old(self), *final(self), gateway_id, address),
    {
        match &mut self.enumeration_state {
            Some(enumeration_state) => {
                enumeration_state.gateway_identity_observed(gateway_id, address);
            },
            None => {
                self.persistent_state.gateway_identities.insert(gateway_id.0, address);
            },
        }
    }

    /// A gateway's version was observed: it goes to the transient record
    /// during enumeration, to persistent state otherwise.
    pub fn gateway_version_observed(&mut self, gateway_id: GatewayID, version: String)
        requires
            old(self).wf(),
        ensures
            final(self).wf(),
            rel_gateway_version_observed(*old(self), *final(self), gateway_id, version),
    {
        match &mut self.enumeration_state {
            Some(enumeration_state) => {
                enumeration_state.gateway_versions.insert(gateway_id.0, version);
            },
            None => {
                self.persistent_state.gateway_versions.insert(gateway_id.0, version);
            },
        }
    }

    /// Enumeration ended: when the whole exchange was caught, the transient
    /// identities and versions replace the persistent maps atomically.
    pub fn enumeration_ended(&mut self, _gateway_id: GatewayID)
        requires
            old(self).wf(),
        ensures
            final(self).wf(),
            rel_enumeration_ended(*old(self), *final(self)),
    {
        let mut taken: Option<EnumerationState> = None;
        std::mem::swap(&mut taken, &mut self.enumeration_state);
        match taken {
            Some(enumeration_state) => {
                self.persistent_state.gateway_identities = enumeration_state.gateway_identities;
                self.persistent_state.gateway_versions = enumeration_state.gateway_versions;
            },
            None => {},
        }
    }

    /// A gateway captured its slot counter at the given wall-clock time; the
    /// value itself follows in a later receive response.
    pub fn gateway_slot_counter_captured(&mut self, gateway_id: GatewayID, now_ms: i64)
        requires
            old(self).wf(),
            spec_time_ok(now_ms as int),
        ensures
            final(self).wf(),
            rel_slot_counter_captured(*old(self), *final(self), gateway_id, now_ms),
    {
        self.captured_slot_counters.insert(gateway_id.0, now_ms);
    }

    /// A gateway's captured slot counter value was observed: pair it with
    /// the capture time and fold the pair into the gateway's slot clock.
    pub fn gateway_slot_counter_observed(&mut self, gateway_id: GatewayID, slot_counter: SlotCounter)
        requires
            old(self).wf(),
        ensures
            final(self).wf(),
            spec_ps_eq(final(self).persistent_state, old(self).persistent_state),
            spec_enum_eq(final(self).enumeration_state, old(self).enumeration_state),
            final(self).node_table_builders@ == old(self).node_table_builders@,
            rel_slot_counter_observed(*old(self), *final(self), gateway_id, slot_counter),
    {
        let time: i64 = match self.captured_slot_counters.remove(&gateway_id.0) {
            Some(t) => t,
            None => {
                proof {
                    assert(self.captured_slot_counters@ =~= old(self).captured_slot_counters@);
                }
                return ;
            },
        };
        let has_clock = self.slot_clocks.contains_key(&gateway_id.0);
        if has_clock {
            let mut clock = match self.slot_clocks.remove(&gateway_id.0) {
                Some(c) => c,
                None => {
                    proof {
                        assert(false);
                    }
                    return ;
                },
            };
            let ok = clock.set(slot_counter, time);
            self.slot_clocks.insert(gateway_id.0, clock);
            proof {
                if ok is Err {
                    assert(final(self).slot_clocks@ =~= old(self).slot_clocks@);
                }
                assert(final(self).slot_clocks@.remove(gateway_id.0) =~= old(
                    self,
                ).slot_clocks@.remove(gateway_id.0));
            }
        } else {
            match SlotClock::new(slot_counter, time) {
                Ok(clock) => {
                    self.slot_clocks.insert(gateway_id.0, clock);
                    proof {
                        assert(final(self).slot_clocks@.remove(gateway_id.0) =~= old(
                            self,
                        ).slot_clocks@.remove(gateway_id.0));
                    }
                },
                Err(_) => {},
            }
        }
    }

    /// One page of a gateway's node table was observed: fold it into the
    /// gateway's builder, and commit the assembled table to persistent state
    /// when the page is the terminator.
    pub fn node_table_page(
        &mut self,
        gateway_id: GatewayID,
        start_address: NodeAddress,
        nodes: &Vec<NodeTableResponseEntry>,
    )
        requires
            old(self).wf(),
        ensures
            final(self).wf(),
            final(self).persistent_state.gateway_identities@ == old(
                self,
            ).persistent_state.gateway_identities@,
            final(self).persistent_state.gateway_versions@ == old(
                self,
            ).persistent_state.gateway_versions@,
            spec_enum_eq(final(self).enumeration_state, old(self).enumeration_state),
            final(self).captured_slot_counters@ == old(self).captured_slot_counters@,
            final(self).slot_clocks@ == old(self).slot_clocks@,
            rel_node_table_page(*old(self), *final(self), gateway_id, nodes@, start_address),
    {
        let mut builder: NodeTableBuilder = match self.node_table_builders.remove(&gateway_id.0) {
            Some(b) => b,
            None => NodeTableBuilder::new(),
        };
        let committed = builder.push(start_address, nodes);
        self.node_table_builders.insert(gateway_id.0, builder);
        match committed {
            Some(table) => {
                self.persistent_state.gateway_node_tables.insert(gateway_id.0, table);
            },
            None => {},
        }
        proof {
            assert(final(self).node_table_builders@ =~= old(self).node_table_builders@.insert(
                gateway_id.0,
                final(self).node_table_builders@[gateway_id.0],
            ));
        }
    }

    /// Stamp a power report against the gateway's slot clock and name its
    /// gateway and node. A report from a gateway without a clock, or with an
    /// invalid slot counter, is discarded.
    pub fn power_report(&self, gateway_id: GatewayID, pv_node_id: NodeID, report: &PowerReport) -> (r:
        Option<PowerReportEvent>)
        requires
            self.wf(),
        ensures
            rel_power_report(*self, gateway_id, pv_node_id, *report, r),
    {
        let slot_clock = match self.slot_clocks.get(&gateway_id.0) {
            Some(c) => c,
            None => {
                return None;
            },
        };
        let gateway = self.gateway(gateway_id);
        let node = self.node(gateway_id, pv_node_id);
        match PowerReportEvent::new(gateway, node, slot_clock, report) {
            Ok(event) => Some(event),
            Err(_) => None,
        }
    }

    /// Consume one transport event at the given wall-clock time.
    pub fn handle_transport_event(&mut self, event: TransportEvent, now_ms: i64)
        requires
            old(self).wf(),
            spec_time_ok(now_ms as int),
        ensures
            final(self).wf(),
            rel_transport_event(*old(self), *final(self), event, now_ms),
    {
        match event {
            TransportEvent::EnumerationStarted { enumeration_gateway_id } => {
                self.enumeration_started(enumeration_gateway_id);
            },
            TransportEvent::GatewayIdentityObserved { gateway_id, address } => {
                self.gateway_identity_observed(gateway_id, address);
            },
            TransportEvent::GatewayVersionObserved { gateway_id, version } => {
                self.gateway_version_observed(gateway_id, version);
            },
            TransportEvent::EnumerationEnded { gateway_id } => {
                self.enumeration_ended(gateway_id);
            },
            TransportEvent::GatewaySlotCounterCaptured { gateway_id } => {
                self.gateway_slot_counter_captured(gateway_id, now_ms);
            },
            TransportEvent::GatewaySlotCounterObserved { gateway_id, slot_counter } => {
                self.gateway_slot_counter_observed(gateway_id, slot_counter);
            },
            TransportEvent::PacketReceived { .. } => {},
            TransportEvent::CommandExecuted { .. } => {},
        }
    }

    /// Consume one application event at the given wall-clock time, returning
    /// the output event it produces, if any.
    pub fn handle_app_event(&mut self, event: AppEvent, now_ms: i64) -> (r: Option<Event>)
        requires
            old(self).wf(),
            spec_time_ok(now_ms as int),
        ensures
            final(self).wf(),
            ({
                match event {
                    AppEvent::Transport(e) => rel_transport_event(
                        *old(self),
                        *final(self),
                        e,
                        now_ms,
                    ) && r is None,
                    AppEvent::NodeTablePage { gateway_id, start_address, nodes } => {
                        rel_node_table_page(
                            *old(self),
                            *final(self),
                            gateway_id,
                            nodes@,
                            start_address,
                        ) && r is None
                    },
                    AppEvent::PowerReport { gateway_id, pv_node_id, report } => {
                        &&& spec_obs_eq(*old(self), *final(self))
                        &&& match r {
                            Some(Event::PowerReport(e)) => rel_power_report(
                                *old(self),
                                gateway_id,
                                pv_node_id,
                                report,
                                Some(e),
                            ),
                            None => rel_power_report(
                                *old(self),
                                gateway_id,
                                pv_node_id,
                                report,
                                None,
                            ),
                        }
                    },
                    _ => spec_obs_eq(*old(self), *final(self)) && r is None,
                }
            }),
    {
        match event {
            AppEvent::Transport(e) => {
                self.handle_transport_event(e, now_ms);
                None
            },
            AppEvent::NodeTablePage { gateway_id, start_address, nodes } => {
                self.node_table_page(gateway_id, start_address, &nodes);
                None
            },
            AppEvent::PowerReport { gateway_id, pv_node_id, report } => {
                match self.power_report(gateway_id, pv_node_id, &report) {
                    Some(e) => Some(Event::PowerReport(e)),
                    None => None,
                }
            },
            AppEvent::StringRequest { .. } => None,
            AppEvent::StringResponse { .. } => None,
            AppEvent::TopologyReport { .. } => None,
        }
    }
}

} // verus!
