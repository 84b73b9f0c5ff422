//! Configuration values naming a byte source for the pipeline.

use vstd::prelude::*;

verus! {

/// Whether a TCP byte source may also be written to.
#[derive(Debug, Clone, Eq, PartialEq, Structural)]
pub enum ConnectionMode {
    ReadOnly,
    ReadWrite,
}

/// Where a serial-over-TCP byte source listens.
#[derive(Debug, Clone, Eq, PartialEq)]
pub struct TcpConnectionConfig {
    pub hostname: String,
    pub port: u16,
    pub mode: ConnectionMode,
}

/// The name of a local serial port to open as the byte source.
#[derive(Debug, Clone, Eq, PartialEq)]
pub struct SerialSourceConfig {
    pub name: String,
}

/// A configured byte source.
#[derive(Debug, Clone, Eq, PartialEq)]
pub enum SourceConfig {
    Serial(SerialSourceConfig),
    Tcp(TcpConnectionConfig),
}

/// The default TCP port of a serial-over-TCP source.
pub fn default_port() -> (r: u16)
    ensures
        r == 7160,
{
    7160
}

} // verus!
