//! Configuration protocol engine for a Lattice ECP5 FPGA.
//!
//! The library derives the device's lifecycle state from its control pins,
//! issues atomic commands over a shared, lockable configuration channel, and
//! streams a (possibly run-length-compressed) bitstream into the device as a
//! three-phase transaction. Every operation is specified against a ghost log
//! of the pin and channel operations it performs, so the ordering guarantees
//! of the protocol (lock discipline, reset sequencing, which commands are
//! issued when) are machine-checked.

pub mod command;
pub mod device;
pub mod display;
pub mod driver;
pub mod errors;
pub mod rle;
pub mod server;
pub mod sim;
pub mod status;
pub mod tofino2;

use vstd::prelude::*;

verus! {

/// Lifecycle state of the device, derived from its control pins on demand.
#[derive(Copy, Clone, Debug, PartialEq, Eq, Structural)]
pub enum DeviceState {
    /// The device is held in reset (`PROGRAM_N` deasserted).
    Disabled,
    /// The device is released from reset and waiting for a bitstream.
    AwaitingBitstream,
    /// A configured application design is live.
    RunningApplication,
    /// Ambiguous or faulted pin combination.
    Error,
}

} // verus!
