//! MMU control: enable translation and caching on the core, idempotently,
//! after validating hardware capability.
//!
//! The decision logic and the register values are computed and verified
//! over [`MmuRegisters`], a plain-value model of the EL1 system registers
//! this component reads and programs. The register writes themselves,
//! which must be bracketed by instruction synchronization barriers, are
//! carried out by the runtime around this library; it feeds the hardware
//! state into the model and writes back what the model decided, in the
//! mandatory order.

use aarch64_cpu::registers::{Readable, SCTLR_EL1};
use vstd::prelude::*;

verus! {

use crate::common::spec_is_aligned;
use crate::memory::mmu::MMUEnableError;
use crate::memory::mmu::translation_table::MAX_DESCRIPTOR_OUTPUT_ADDR;
use crate::memory::{Address, Physical};

/// MAIR_EL1: attribute 1 is cacheable normal DRAM (write-back
/// non-transient, read/write-allocate, inner and outer), attribute 0 is
/// device memory (nGnRE).
pub const MAIR_EL1_ATTR1_NORMAL_WRITEBACK: u64 = 0xFF00;

pub const MAIR_EL1_ATTR0_DEVICE_NGNRE: u64 = 0x4;

pub const MAIR_EL1_VALUE: u64 = MAIR_EL1_ATTR1_NORMAL_WRITEBACK + MAIR_EL1_ATTR0_DEVICE_NGNRE;

// TCR_EL1 fields for a 64 KiB-granule, single-TTBR0 configuration.
/// `IPS` (bits 32..=34): 40-bit intermediate physical addresses.
pub const TCR_EL1_IPS_BITS_40: u64 = 0x2_0000_0000;

/// `EPD1` (bit 23): disable TTBR1 walks.
pub const TCR_EL1_EPD1_DISABLE_TTBR1: u64 = 0x80_0000;

/// `TG0` (bits 14..=15): 64 KiB granule for TTBR0.
pub const TCR_EL1_TG0_64KIB: u64 = 0x4000;

/// `SH0` (bits 12..=13): inner shareable table walks.
pub const TCR_EL1_SH0_INNER: u64 = 0x3000;

/// `ORGN0` (bits 10..=11): outer write-back cacheable walks.
pub const TCR_EL1_ORGN0_WRITEBACK: u64 = 0x400;

/// `IRGN0` (bits 8..=9): inner write-back cacheable walks.
pub const TCR_EL1_IRGN0_WRITEBACK: u64 = 0x100;

/// `T0SZ` (bits 0..=5): the virtual address width is 64 minus this, so it
/// matches the configured address-space size.
pub const TCR_EL1_T0SZ: u64 = 64 - 30;

/// The full TCR_EL1 value: `TBI0` used, `A1` selecting TTBR0 and `EPD0`
/// enabling TTBR0 walks are all zero.
pub const TCR_EL1_VALUE: u64 = TCR_EL1_IPS_BITS_40 + TCR_EL1_EPD1_DISABLE_TTBR1
    + TCR_EL1_TG0_64KIB + TCR_EL1_SH0_INNER + TCR_EL1_ORGN0_WRITEBACK + TCR_EL1_IRGN0_WRITEBACK
    + TCR_EL1_T0SZ;

/// SCTLR_EL1 bits set when switching on: `M` (bit 0) enables the MMU,
/// `C` (bit 2) data caching, `I` (bit 12) instruction caching.
pub const SCTLR_EL1_ENABLE_MMU_AND_CACHING: u64 = 0x1005;

/// The MMU is on: SCTLR_EL1.M (bit 0) is set.
pub open spec fn spec_mmu_enabled(sctlr_el1: int) -> bool {
    sctlr_el1 % 2 == 1
}

/// ID_AA64MMFR0_EL1.TGran64 (bits 24..=27) reads zero when the 64 KiB
/// granule is implemented.
pub open spec fn spec_tgran64_supported(id_aa64mmfr0_el1: int) -> bool {
    (id_aa64mmfr0_el1 / 0x100_0000) % 16 == 0
}

/// Plain-value model of the EL1 system registers that MMU control reads
/// and programs.
#[derive(Copy, Clone, Debug, PartialEq, Eq, Structural)]
pub struct MmuRegisters {
    pub mair_el1: u64,
    pub tcr_el1: u64,
    pub ttbr0_el1: u64,
    pub sctlr_el1: u64,
    pub id_aa64mmfr0_el1: u64,
}

impl MmuRegisters {
    pub open spec fn spec_is_enabled(self) -> bool {
        spec_mmu_enabled(self.sctlr_el1 as int)
    }

    /// Translation is active, judged from the register state alone.
    pub fn is_enabled(&self) -> (r: bool)
        ensures
            r == self.spec_is_enabled(),
    {
        self.sctlr_el1 % 2 == 1
    }

    /// Decide on and program the register values that enable translation
    /// and caching.
    ///
    /// Fails with `AlreadyEnabled`, touching nothing, when translation is
    /// already on; fails with a capability error, touching nothing, when
    /// the hardware lacks the 64 KiB granule. Otherwise programs the
    /// memory-attribute table, the table base, and translation control,
    /// and sets the enable bits, leaving every other SCTLR bit as it was.
    pub fn enable_mmu_and_caching(&mut self, phys_tables_base_addr: Address<Physical>) -> (r:
        Result<(), MMUEnableError>)
        requires
            spec_is_aligned(
                phys_tables_base_addr.value as int,
                crate::bsp::KERNEL_GRANULE_SIZE as int,
            ),
            phys_tables_base_addr.value < MAX_DESCRIPTOR_OUTPUT_ADDR,
        ensures
            old(self).spec_is_enabled() ==> r == Err::<(), MMUEnableError>(
                MMUEnableError::AlreadyEnabled,
            ) && *final(self) == *old(self),
            !old(self).spec_is_enabled() && !spec_tgran64_supported(
                old(self).id_aa64mmfr0_el1 as int,
            ) ==> r == Err::<(), MMUEnableError>(
                MMUEnableError::Other("Translation granule not supported in HW"),
            ) && *final(self) == *old(self),
            !old(self).spec_is_enabled() && spec_tgran64_supported(
                old(self).id_aa64mmfr0_el1 as int,
            ) ==> {
                &&& r is Ok
                &&& final(self).mair_el1 == MAIR_EL1_VALUE
                &&& final(self).ttbr0_el1 == phys_tables_base_addr.value as u64
                &&& final(self).tcr_el1 == TCR_EL1_VALUE
                &&& final(self).sctlr_el1 == old(self).sctlr_el1
                    | SCTLR_EL1_ENABLE_MMU_AND_CACHING
                &&& final(self).id_aa64mmfr0_el1 == old(self).id_aa64mmfr0_el1
                &&& final(self).spec_is_enabled()
            },
    {
        if self.is_enabled() {
            return Err(MMUEnableError::AlreadyEnabled);
        }
        if (self.id_aa64mmfr0_el1 / 0x100_0000) % 16 != 0 {
            return Err(MMUEnableError::Other("Translation granule not supported in HW"));
        }
        self.mair_el1 = MAIR_EL1_VALUE;
        self.ttbr0_el1 = phys_tables_base_addr.as_usize() as u64;
        self.tcr_el1 = TCR_EL1_VALUE;
        let enabled_sctlr = self.sctlr_el1 | SCTLR_EL1_ENABLE_MMU_AND_CACHING;
        proof {
            let old_sctlr = self.sctlr_el1;
            assert((old_sctlr | 0x1005) % 2 == 1) by (bit_vector);
        }
        self.sctlr_el1 = enabled_sctlr;
        Ok(())
    }
}

/// Relies on `aarch64_cpu::registers::SCTLR_EL1`: `get` reads the raw
/// system-control register of the executing core.
#[verifier::external_body]
fn read_sctlr_el1() -> u64 {
    SCTLR_EL1.get()
}

/// The core's memory management unit, read through the system registers
/// of the executing core. Meaningful only on an AArch64 core running at
/// EL1.
pub struct MemoryManagementUnit;

/// The one memory management unit of the executing core.
pub fn mmu() -> MemoryManagementUnit {
    MemoryManagementUnit
}

impl MemoryManagementUnit {
    /// Translation is active on the executing core, read from the true
    /// hardware state, never from cached state.
    pub fn is_enabled(&self) -> bool {
        let sctlr_el1 = read_sctlr_el1();
        sctlr_el1 % 2 == 1
    }
}

} // verus!
