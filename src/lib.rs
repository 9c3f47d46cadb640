//! Board support for a dual-core microcontroller: boot sequence of each core,
//! inter-core doorbell, wrap-safe monotonic clock, hardware lock model and
//! the vector table with its boot checksum.
use vstd::prelude::*;

pub mod boot;
pub mod checksum;
pub mod clock;
pub mod mailbox;
pub mod vectors;

verus! {

/// A single 32-bit store to a memory-mapped register.
#[derive(Clone, Copy, Debug, PartialEq, Eq, Structural)]
pub struct RegisterWrite {
    pub addr: usize,
    pub value: u32,
}

/// The registers that the core stacks on exception entry.
#[derive(Clone, Copy, Debug, PartialEq, Eq, Structural)]
pub struct ExceptionFrame {
    /// (General purpose) Register 0
    pub r0: u32,
    /// (General purpose) Register 1
    pub r1: u32,
    /// (General purpose) Register 2
    pub r2: u32,
    /// (General purpose) Register 3
    pub r3: u32,
    /// (General purpose) Register 12
    pub r12: u32,
    /// Link Register
    pub lr: u32,
    /// Program Counter
    pub pc: u32,
    /// Program Status Register
    pub xpsr: u32,
}

} // verus!
