//! Passive observer for an RS-485 control bus linking a site controller to
//! photovoltaic-optimizer radio gateways.
//!
//! The crate decodes a noisy byte stream in four layers — link framing,
//! gateway transport, PV application, observer — and exposes the decoded
//! telemetry as plain event values. It also provides the barcode codec for
//! gateway hardware addresses and the capture-file codec.

pub mod barcode;
pub mod capture;
pub mod config;
pub mod link;
pub mod observer;
pub mod pv;
pub mod text;
pub mod transport;
