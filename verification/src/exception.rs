//! Exception-level plumbing that the memory subsystem interacts with.

use aarch64_cpu::registers::{Readable, DAIF};
use vstd::prelude::*;

pub mod asynchronous;

verus! {

/// The privilege level the core is executing in.
#[derive(Copy, Clone, Debug, PartialEq, Eq, Structural)]
pub enum PrivilegeLevel {
    User,
    Kernel,
    Hypervisor,
    Unknown,
}

/// Relies on `aarch64_cpu::registers::DAIF`: `get` reads the interrupt
/// mask bits of the executing core.
#[verifier::external_body]
fn read_daif() -> u64 {
    DAIF.get()
}

/// The IRQ mask, DAIF.I (bit 7), is set in the given mask-bits value.
pub fn daif_irq_masked(daif: u64) -> (r: bool)
    ensures
        r == ((daif as int / 0x80) % 2 == 1),
{
    (daif / 0x80) % 2 == 1
}

/// The executing core accepts IRQs: its DAIF.I mask bit is clear.
pub fn is_local_irq_masked() -> bool {
    !daif_irq_masked(read_daif())
}

} // verus!
