//! The mapping ledger and the kernel-wide MMIO mapping path.

use starlight_mmu::memory::mmu::mapping_record::{
    kernel_add, kernel_find_and_insert_mmio_duplicate, kernel_print, MappingRecord,
    MappingRecordEntry, MAX_ENTRY_USERS,
};
use starlight_mmu::memory::mmu::translation_table::FixedSizeTranslationTable;
use starlight_mmu::memory::mmu::types::{
    AccessPermissions, AttributeFields, MMIODescriptor, MemoryRegion, MemAttributes, PageAddress,
};
use starlight_mmu::memory::mmu::{
    kernel_init_mmio_va_allocator, kernel_map_mmio, kernel_print_mappings, MemorySubsystem,
};
use starlight_mmu::memory::{Address, Physical, Virtual};

fn virt_region(start: usize, end: usize) -> MemoryRegion<Virtual> {
    MemoryRegion::new(
        PageAddress::new(Address::new(start)),
        PageAddress::new(Address::new(end)),
    )
}

fn phys_region(start: usize, end: usize) -> MemoryRegion<Physical> {
    MemoryRegion::new(
        PageAddress::new(Address::new(start)),
        PageAddress::new(Address::new(end)),
    )
}

fn device_attr() -> AttributeFields {
    AttributeFields {
        mem_attributes: MemAttributes::Device,
        access_permissions: AccessPermissions::ReadWrite,
        execute_never: true,
    }
}

fn dram_attr() -> AttributeFields {
    AttributeFields {
        mem_attributes: MemAttributes::CacheableDRAM,
        access_permissions: AccessPermissions::ReadWrite,
        execute_never: true,
    }
}

#[test]
fn entries_are_kept_sorted_by_virtual_start() {
    let mut record = MappingRecord::new(8);
    let attr = dram_attr();
    record
        .add("second", &virt_region(0x4_0000, 0x5_0000), &phys_region(0x1_0000, 0x2_0000), &attr)
        .unwrap();
    record
        .add("first", &virt_region(0x1_0000, 0x2_0000), &phys_region(0x3_0000, 0x4_0000), &attr)
        .unwrap();
    record
        .add("third", &virt_region(0x8_0000, 0x9_0000), &phys_region(0x5_0000, 0x6_0000), &attr)
        .unwrap();
    let virts: Vec<usize> = record.inner.iter().map(|e| e.virt_start_addr.as_usize()).collect();
    assert_eq!(virts, vec![0x1_0000, 0x4_0000, 0x8_0000]);
    assert_eq!(record.inner[0].users, vec!["first"]);
}

#[test]
fn fixed_capacity_ledger_reports_exhaustion() {
    // A ledger configured for two entries takes two distinct mappings and
    // fails the third with a capacity error instead of crashing.
    let mut record = MappingRecord::new(2);
    let attr = device_attr();
    assert!(record
        .add("a", &virt_region(0x1_0000, 0x2_0000), &phys_region(0x1_0000, 0x2_0000), &attr)
        .is_ok());
    assert!(record
        .add("b", &virt_region(0x2_0000, 0x3_0000), &phys_region(0x2_0000, 0x3_0000), &attr)
        .is_ok());
    let r = record.add(
        "c",
        &virt_region(0x3_0000, 0x4_0000),
        &phys_region(0x3_0000, 0x4_0000),
        &attr,
    );
    assert_eq!(r.unwrap_err(), "mapping record full");
    assert_eq!(record.inner.len(), 2);
}

#[test]
fn owner_list_is_bounded() {
    let mut entry = MappingRecordEntry::new(
        "owner0",
        &virt_region(0x1_0000, 0x2_0000),
        &phys_region(0x1_0000, 0x2_0000),
        &device_attr(),
    );
    for i in 1..MAX_ENTRY_USERS {
        assert!(entry.add_user(if i % 2 == 0 { "even" } else { "odd" }).is_ok());
    }
    let r = entry.add_user("one too many");
    assert_eq!(r.unwrap_err(), "owner list of mapping record entry is full");
    assert_eq!(entry.users.len(), MAX_ENTRY_USERS);
}

#[test]
fn mmio_duplicate_lookup_matches_device_entries_only() {
    let mut record = MappingRecord::new(8);
    // A DRAM entry with the same physical window must not be treated as
    // an MMIO duplicate.
    record
        .add(
            "ram",
            &virt_region(0x1_0000, 0x2_0000),
            &phys_region(0x3F20_0000, 0x3F21_0000),
            &dram_attr(),
        )
        .unwrap();
    let desc = MMIODescriptor::new(Address::new(0x3F20_1000), 0x48);
    assert!(kernel_find_and_insert_mmio_duplicate(&mut record, &desc, "uart").is_none());

    record
        .add(
            "uart",
            &virt_region(0x5_0000, 0x6_0000),
            &phys_region(0x3F20_0000, 0x3F21_0000),
            &device_attr(),
        )
        .unwrap();
    let hit = kernel_find_and_insert_mmio_duplicate(&mut record, &desc, "uart alias");
    assert_eq!(hit.unwrap().as_usize(), 0x5_0000);
    let entry = record
        .inner
        .iter()
        .find(|e| e.attribute_fields.mem_attributes == MemAttributes::Device)
        .unwrap();
    assert_eq!(entry.users, vec!["uart", "uart alias"]);
}

fn fresh_subsystem() -> MemorySubsystem {
    let mut tables = FixedSizeTranslationTable::new(1, Address::new(0x0800_0000));
    tables.init();
    let mut s = MemorySubsystem::new(tables, 8);
    // A 16-page virtual window for MMIO remapping.
    kernel_init_mmio_va_allocator(&mut s, virt_region(0x1000_0000, 0x1010_0000)).unwrap();
    s
}

#[test]
fn requesting_the_same_mmio_window_twice_returns_the_same_address() {
    let mut s = fresh_subsystem();
    let desc = MMIODescriptor::new(Address::new(0x3F20_1000), 0x48);

    let first = kernel_map_mmio(&mut s, "uart", &desc).unwrap();
    let second = kernel_map_mmio(&mut s, "uart printer", &desc).unwrap();
    assert_eq!(first.as_usize(), 0x1000_1000);
    assert_eq!(second.as_usize(), first.as_usize());

    // One ledger entry with both owners.
    assert_eq!(s.mapping_record.inner.len(), 1);
    assert_eq!(s.mapping_record.inner[0].users, vec!["uart", "uart printer"]);
    assert_eq!(s.mapping_record.inner[0].num_pages, 1);
    assert_eq!(s.mapping_record.inner[0].phys_start_addr.as_usize(), 0x3F20_0000);

    // Only one virtual page was consumed.
    assert_eq!(s.mmio_va_allocator.pool.unwrap().start_page_addr().into_inner().as_usize(), 0x1001_0000);
}

#[test]
fn distinct_mmio_windows_get_distinct_addresses() {
    let mut s = fresh_subsystem();
    let uart = MMIODescriptor::new(Address::new(0x3F20_1000), 0x48);
    let ic = MMIODescriptor::new(Address::new(0x3F00_B200), 0x24);

    let uart_addr = kernel_map_mmio(&mut s, "uart", &uart).unwrap();
    let ic_addr = kernel_map_mmio(&mut s, "interrupt controller", &ic).unwrap();
    assert_eq!(uart_addr.as_usize(), 0x1000_1000);
    assert_eq!(ic_addr.as_usize(), 0x1001_B200);
    assert_eq!(s.mapping_record.inner.len(), 2);
}

#[test]
fn devices_sharing_one_physical_page_share_one_window() {
    // The UART and GPIO blocks of this board live in the same 64 KiB
    // physical page, so the second request is recognized as a duplicate
    // and no second window is mapped.
    let mut s = fresh_subsystem();
    let uart = MMIODescriptor::new(Address::new(0x3F20_1000), 0x48);
    let gpio = MMIODescriptor::new(Address::new(0x3F20_0000), 0xA0);

    let uart_addr = kernel_map_mmio(&mut s, "uart", &uart).unwrap();
    let gpio_addr = kernel_map_mmio(&mut s, "gpio", &gpio).unwrap();
    assert_eq!(uart_addr.as_usize(), 0x1000_1000);
    assert_eq!(gpio_addr.as_usize(), 0x1000_0000);
    assert_eq!(s.mapping_record.inner.len(), 1);
    assert_eq!(s.mapping_record.inner[0].users, vec!["uart", "gpio"]);
}

#[test]
fn mmio_mapping_without_an_initialized_allocator_fails() {
    let mut tables = FixedSizeTranslationTable::new(1, Address::new(0x0800_0000));
    tables.init();
    let mut s = MemorySubsystem::new(tables, 8);
    let desc = MMIODescriptor::new(Address::new(0x3F20_1000), 0x48);
    let r = kernel_map_mmio(&mut s, "uart", &desc);
    assert_eq!(r.unwrap_err(), "allocator not initialized");
}

#[test]
fn mmio_mapping_fails_when_the_window_pool_is_exhausted() {
    let mut tables = FixedSizeTranslationTable::new(1, Address::new(0x0800_0000));
    tables.init();
    let mut s = MemorySubsystem::new(tables, 8);
    // A pool of a single page.
    kernel_init_mmio_va_allocator(&mut s, virt_region(0x1000_0000, 0x1001_0000)).unwrap();
    let big = MMIODescriptor::new(Address::new(0x3F00_0000), 2 * 64 * 1024);
    let r = kernel_map_mmio(&mut s, "big window", &big);
    assert_eq!(r.unwrap_err(), "not enough free pages");
}

#[test]
fn initializing_the_allocator_twice_is_reported() {
    let mut s = fresh_subsystem();
    let r = kernel_init_mmio_va_allocator(&mut s, virt_region(0x2000_0000, 0x2001_0000));
    assert_eq!(r.unwrap_err(), "already initialized");
    // The first pool is untouched.
    assert_eq!(s.mmio_va_allocator.pool.unwrap().start_addr().as_usize(), 0x1000_0000);
}

#[test]
fn ledger_rendering_has_one_line_per_entry_and_owner() {
    let mut s = fresh_subsystem();
    let uart = MMIODescriptor::new(Address::new(0x3F20_1000), 0x48);
    kernel_map_mmio(&mut s, "uart", &uart).unwrap();
    kernel_map_mmio(&mut s, "uart printer", &uart).unwrap();

    // Three header lines, one entry line, one continuation line for the
    // second owner, one separator.
    let lines = kernel_print_mappings(&s);
    assert_eq!(lines.len(), 6);

    // The header and separators are fixed text.
    let expected_header = format!(
        "    {:^44}     {:^30}   {:^7}   {:^9}   {:^35}",
        "Virtual", "Physical", "Size", "Attr", "Entity"
    );
    assert_eq!(lines[1], expected_header);
    assert_eq!(lines[0], lines[2]);
    assert_eq!(lines[5], lines[0]);

    // The entry line shows the window's virtual and physical ranges, the
    // human-readable size, the attribute abbreviations, and the first
    // owner; the continuation line shows the second owner.
    let expected_entry = format!(
        "    {:#011x}..{:#011x} --> {:#011x}..{:#011x} | {:>3} {} | {:<3} {} {:<2} | {}",
        0x1000_0000usize,
        0x1000_FFFFusize,
        0x3F20_0000usize,
        0x3F20_FFFFusize,
        64usize,
        "KiB",
        "Dev",
        "RW",
        "XN",
        "uart"
    );
    assert_eq!(lines[3], expected_entry);
    let expected_user = format!(
        "                                                                                                            | {}",
        "uart printer"
    );
    assert_eq!(lines[4], expected_user);

    let direct = kernel_print(&s.mapping_record);
    assert_eq!(direct, lines);
}

#[test]
fn a_full_ledger_rejects_fresh_mmio_requests_up_front() {
    let mut tables = FixedSizeTranslationTable::new(1, Address::new(0x0800_0000));
    tables.init();
    // Room for exactly one ledger entry.
    let mut s = MemorySubsystem::new(tables, 1);
    kernel_init_mmio_va_allocator(&mut s, virt_region(0x1000_0000, 0x1010_0000)).unwrap();

    let uart = MMIODescriptor::new(Address::new(0x3F20_1000), 0x48);
    let ic = MMIODescriptor::new(Address::new(0x3F00_B200), 0x24);
    let uart_addr = kernel_map_mmio(&mut s, "uart", &uart).unwrap();

    // A fresh request that could not be recorded is rejected before any
    // window is allocated or mapped.
    let pool_before = s.mmio_va_allocator.pool.unwrap();
    let r = kernel_map_mmio(&mut s, "interrupt controller", &ic);
    assert_eq!(r.unwrap_err(), "mapping record full");
    assert_eq!(
        s.mmio_va_allocator.pool.unwrap().start_addr().as_usize(),
        pool_before.start_addr().as_usize()
    );

    // Deduplicated requests need no room and still succeed.
    let again = kernel_map_mmio(&mut s, "uart printer", &uart).unwrap();
    assert_eq!(again.as_usize(), uart_addr.as_usize());
    assert_eq!(s.mapping_record.inner[0].users, vec!["uart", "uart printer"]);
}

#[test]
fn kernel_add_reports_capacity_like_the_ledger() {
    let mut record = MappingRecord::new(1);
    let attr = dram_attr();
    assert!(kernel_add(
        &mut record,
        "only",
        &virt_region(0x1_0000, 0x2_0000),
        &phys_region(0x1_0000, 0x2_0000),
        &attr
    )
    .is_ok());
    let r = kernel_add(
        &mut record,
        "overflow",
        &virt_region(0x2_0000, 0x3_0000),
        &phys_region(0x2_0000, 0x3_0000),
        &attr,
    );
    assert_eq!(r.unwrap_err(), "mapping record full");
}
