//! Wire-format codec for a quadruped-robot control protocol.
//!
//! The library builds outbound command packets and parses inbound telemetry
//! packets for a two-tier motion-control protocol: a high-level tier (body
//! velocity / pose commands, aggregate telemetry) and a low-level tier
//! (per-joint motor commands, 20 actuators). Every field sits at a fixed byte
//! offset in a fixed-length buffer; all contracts are stated byte-for-byte.
//!
//! Floating-point quantities never appear in the library itself: a plain
//! 32-bit float field is carried as its IEEE bit pattern (`u32`), and the
//! quantized torque / stiffness / damping fields are carried as fixed-point
//! integers (1/256 steps for torque, tenths for stiffness and damping).
//! Callers convert at the boundary.

pub mod common;
pub mod complex;
pub mod crc_props;
pub mod enums;
pub mod high_cmd;
pub mod high_state;
pub mod low_cmd;

use vstd::prelude::*;

verus! {

/// Version tag of this codec library.
pub fn lib_version() -> (r: &'static str)
    ensures
        r@ == "0.2"@,
{
    "0.2"
}

/// The failures an encode or decode call can report. Every failure is
/// returned to the caller; the library never panics and never aborts the
/// process.
#[derive(Debug, Clone, Copy, PartialEq, Eq)]
pub enum CodecError {
    /// A buffer's length does not match the fixed size of its packet or
    /// entity kind.
    LengthMismatch,
    /// An actuator index at or beyond the 20 slots of a motor array.
    InvalidIndex,
}

} // verus!
