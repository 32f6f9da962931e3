//! Translation-granule and address-space sizing checks.

use starlight_mmu::memory::mmu::{AddressSpace, TranslationGranule};

#[test]
fn granule_construction_succeeds_for_powers_of_two() {
    assert_eq!(TranslationGranule::<{ 64 * 1024 }>::size_checked(), Ok(64 * 1024));
    assert_eq!(TranslationGranule::<{ 512 * 1024 * 1024 }>::size_checked(), Ok(512 * 1024 * 1024));
    assert_eq!(TranslationGranule::<1>::size_checked(), Ok(1));
}

#[test]
fn granule_construction_fails_otherwise() {
    assert!(TranslationGranule::<0>::size_checked().is_err());
    assert!(TranslationGranule::<3>::size_checked().is_err());
    assert!(TranslationGranule::<65535>::size_checked().is_err());
    assert!(TranslationGranule::<65537>::size_checked().is_err());
}

#[test]
fn granule_mask_and_shift() {
    assert_eq!(TranslationGranule::<{ 64 * 1024 }>::mask_checked(), Ok(0xFFFF));
    assert_eq!(TranslationGranule::<{ 64 * 1024 }>::shift_checked(), Ok(16));
    assert_eq!(TranslationGranule::<{ 512 * 1024 * 1024 }>::shift_checked(), Ok(29));
    assert!(TranslationGranule::<100>::shift_checked().is_err());
}

#[test]
fn address_space_sizing_rules() {
    // A power of two, a multiple of the 512 MiB top-level window, within
    // the 48-bit budget.
    assert_eq!(AddressSpace::<{ 1024 * 1024 * 1024 }>::size_checked(), Ok(1024 * 1024 * 1024));
    assert_eq!(
        AddressSpace::<{ 512 * 1024 * 1024 }>::size_checked(),
        Ok(512 * 1024 * 1024)
    );
    // Not a multiple of the top-level window.
    assert!(AddressSpace::<{ 256 * 1024 * 1024 }>::size_checked().is_err());
    // Not a power of two.
    assert!(AddressSpace::<{ 3 * 512 * 1024 * 1024 }>::size_checked().is_err());
    // Beyond the architectural maximum of 48 bits.
    assert!(AddressSpace::<{ 1 << 49 }>::size_checked().is_err());
}
