//! MMU control over the register model.

use starlight_mmu::memory::mmu::control::{
    MmuRegisters, MAIR_EL1_VALUE, SCTLR_EL1_ENABLE_MMU_AND_CACHING, TCR_EL1_VALUE,
};
use starlight_mmu::memory::mmu::MMUEnableError;
use starlight_mmu::memory::{Address, Physical};

fn powered_off_registers() -> MmuRegisters {
    MmuRegisters {
        mair_el1: 0,
        tcr_el1: 0,
        ttbr0_el1: 0,
        sctlr_el1: 0x0030_0000,
        id_aa64mmfr0_el1: 0x0000_1122,
    }
}

#[test]
fn enabling_programs_the_registers_once() {
    let mut regs = powered_off_registers();
    assert!(!regs.is_enabled());
    let base = Address::<Physical>::new(0x0800_0000);

    // First call succeeds and programs translation and caching.
    regs.enable_mmu_and_caching(base).unwrap();
    assert!(regs.is_enabled());
    assert_eq!(regs.mair_el1, MAIR_EL1_VALUE);
    assert_eq!(regs.tcr_el1, TCR_EL1_VALUE);
    assert_eq!(regs.ttbr0_el1, 0x0800_0000);
    assert_eq!(regs.sctlr_el1, 0x0030_0000 | SCTLR_EL1_ENABLE_MMU_AND_CACHING);

    // Second call reports AlreadyEnabled without reprogramming anything.
    let snapshot = regs;
    let r = regs.enable_mmu_and_caching(Address::new(0x1000_0000));
    assert_eq!(r.unwrap_err(), MMUEnableError::AlreadyEnabled);
    assert_eq!(regs, snapshot);
}

#[test]
fn missing_granule_support_is_a_capability_error() {
    let mut regs = powered_off_registers();
    // TGran64 (bits 24..=27) reads non-zero: the 64 KiB granule is not
    // implemented.
    regs.id_aa64mmfr0_el1 = 0xF << 24;
    let snapshot = regs;
    let r = regs.enable_mmu_and_caching(Address::new(0x0800_0000));
    assert_eq!(
        r.unwrap_err(),
        MMUEnableError::Other("Translation granule not supported in HW")
    );
    assert_eq!(regs, snapshot);
}

#[test]
fn register_values_match_the_documented_fields() {
    // MAIR: attribute 1 normal write-back (0xFF at byte 1), attribute 0
    // device nGnRE (0x04 at byte 0).
    assert_eq!(MAIR_EL1_VALUE, 0xFF04);
    // TCR: 40-bit IPS, TTBR1 walks disabled, 64 KiB granule,
    // inner-shareable write-back walks, T0SZ = 34 for a 1 GiB space.
    assert_eq!(
        TCR_EL1_VALUE,
        (0b010 << 32) | (1 << 23) | (0b01 << 14) | (0b11 << 12) | (0b01 << 10) | (0b01 << 8) | 34
    );
    // SCTLR enable bits: M, C and I.
    assert_eq!(SCTLR_EL1_ENABLE_MMU_AND_CACHING, (1 << 12) | (1 << 2) | 1);
}

#[test]
fn enable_error_messages() {
    assert_eq!(MMUEnableError::AlreadyEnabled.as_str(), "MMU is already enabled");
    assert_eq!(MMUEnableError::Other("boom").as_str(), "boom");
}
