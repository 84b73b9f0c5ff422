//! The events an observer emits.

use crate::barcode::Barcode;
use crate::link::GatewayID;
use crate::observer::slot_clock::{spec_index, spec_offset, SlotClock};
use crate::pv::application::PowerReport;
use crate::pv::slot_counter::{spec_counter_valid, InvalidSlotNumber};
use crate::pv::{LongAddress, NodeID, RSSI};
use vstd::prelude::*;

verus! {

/// A gateway as an event names it: its link layer ID, and its hardware
/// address when known.
#[derive(Debug, Copy, Clone)]
pub struct Gateway {
    /// The gateway's link layer ID. This value can change over time and is
    /// duplicated between different systems, but it is always present.
    pub id: GatewayID,
    /// The gateway's hardware address. This value is permanent and globally
    /// unique, but it is not always known.
    pub address: Option<LongAddress>,
}

/// A node as an event names it: its ID, and its hardware address and barcode
/// when known.
#[derive(Debug, Copy, Clone)]
pub struct Node {
    /// The node's ID. This value can change over time and is duplicated
    /// between different gateways, but it is always present.
    pub id: NodeID,
    /// The node's hardware address. This value is permanent and globally
    /// unique, but it is not always known.
    pub address: Option<LongAddress>,
    /// The node's barcode. This value is permanent and globally unique, but
    /// it is not always known.
    pub barcode: Option<Barcode>,
}

/// An event produced by an observer.
#[derive(Debug, Clone)]
pub enum Event {
    PowerReport(PowerReportEvent),
}

/// A time-stamped power report. The measurements are the raw wire values;
/// their physical interpretations are fixed scalings: volts are twentieths
/// (input) and tenths (output), amperes are two-hundredths, the duty cycle is
/// out of 255, and degrees Celsius are tenths.
#[derive(Debug, Copy, Clone)]
pub struct PowerReportEvent {
    /// The gateway through which the power report was received.
    pub gateway: Gateway,
    /// The node sending the power report.
    pub node: Node,
    /// The time at which this measurement was taken, in milliseconds since
    /// the Unix epoch.
    pub timestamp_ms: i64,
    /// Input voltage in twentieths of a volt.
    pub voltage_in_twentieths: u16,
    /// Output voltage in tenths of a volt.
    pub voltage_out_tenths: u16,
    /// Current in two-hundredths of an ampere.
    pub current_two_hundredths: u16,
    /// DC-DC duty cycle in units of 1/255.
    pub dc_dc_duty_cycle_255ths: u8,
    /// Temperature in tenths of a degree Celsius; the low twelve wire bits
    /// read as two's complement.
    pub temperature_tenths: i16,
    pub rssi: RSSI,
}

/// The low twelve bits of a wire word read as a two's-complement value.
pub open spec fn spec_sign_extend_12(v: u16) -> i16 {
    if v & 0x800 == 0 {
        v as i16
    } else {
        (v | 0xf000) as i16
    }
}

impl PowerReportEvent {
    /// Stamp a power report: resolve its slot counter against the gateway's
    /// slot clock and unpack the packed measurement pairs.
    pub fn new(gateway: Gateway, node: Node, slot_clock: &SlotClock, report: &PowerReport) -> (r:
        Result<PowerReportEvent, InvalidSlotNumber>)
        requires
            slot_clock.wf(),
        ensures
            spec_counter_valid(report.slot_counter.0) <==> r is Ok,
            r matches Ok(e) ==> {
                &&& e.gateway == gateway
                &&& e.node == node
                &&& e.timestamp_ms == slot_clock.times@[spec_index(report.slot_counter.0)]
                    + spec_offset(report.slot_counter.0)
                &&& e.voltage_in_twentieths == crate::pv::application::spec_u12_first(
                    report.voltage_in_and_voltage_out.0[0],
                    report.voltage_in_and_voltage_out.0[1],
                )
                &&& e.voltage_out_tenths == crate::pv::application::spec_u12_second(
                    report.voltage_in_and_voltage_out.0[1],
                    report.voltage_in_and_voltage_out.0[2],
                )
                &&& e.current_two_hundredths == crate::pv::application::spec_u12_first(
                    report.current_and_temperature.0[0],
                    report.current_and_temperature.0[1],
                )
                &&& e.temperature_tenths == spec_sign_extend_12(
                    crate::pv::application::spec_u12_second(
                        report.current_and_temperature.0[1],
                        report.current_and_temperature.0[2],
                    ),
                )
                &&& e.dc_dc_duty_cycle_255ths == report.dc_dc_duty_cycle
                &&& e.rssi == report.rssi
            },
    {
        let timestamp_ms = match slot_clock.get(report.slot_counter) {
            Ok(t) => t,
            Err(e) => {
                return Err(e);
            },
        };
        let (voltage_in, voltage_out) = report.voltage_in_and_voltage_out.unpack();
        let (current, temperature) = report.current_and_temperature.unpack();
        let temperature_tenths: i16 = if temperature & 0x800 == 0 {
            temperature as i16
        } else {
            (temperature | 0xf000) as i16
        };
        Ok(
            PowerReportEvent {
                gateway,
                node,
                timestamp_ms,
                voltage_in_twentieths: voltage_in,
                voltage_out_tenths: voltage_out,
                current_two_hundredths: current,
                dc_dc_duty_cycle_255ths: report.dc_dc_duty_cycle,
                temperature_tenths,
                rssi: report.rssi,
            },
        )
    }
}

} // verus!
