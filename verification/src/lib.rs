//! Hardware-facing core of a small single-address-space x86-64 kernel.
//!
//! The crate holds the decisions of three subsystems as ordinary functions
//! with machine-checked contracts: interrupt routing and acknowledgement,
//! virtual-memory translation with physical-frame allocation, and the bridge
//! that carries keyboard scancodes from the interrupt handler to a
//! cooperatively scheduled consumer. Port I/O, control registers and raw
//! memory stay with the caller.

pub mod errors;
pub mod interrupts;
pub mod memory;
pub mod task;
