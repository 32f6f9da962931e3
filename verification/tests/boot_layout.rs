//! Board support: layout regions, the two table-construction strategies,
//! and interrupt numbering.

use starlight_mmu::bsp::{
    kernel_add_mapping_records_for_precomputed, kernel_map_binary, kernel_virt_addr_space_size,
    phys_addr_space_end_exclusive_addr, size_to_num_pages, virt_boot_core_stack_region,
    virt_code_region, virt_data_region, virt_heap_region, virt_mmio_remap_region, IRQNumber,
    KernelVirtualLayout, PendingIRQs, PeripheralIRQ, KERNEL_VIRT_ADDR_SPACE_SIZE,
};
use starlight_mmu::common::BoundedUsize;
use starlight_mmu::exception::asynchronous::{IRQHandler, IRQHandlerDescriptor};
use starlight_mmu::memory::mmu::translation_table::FixedSizeTranslationTable;
use starlight_mmu::memory::mmu::types::{AccessPermissions, MemAttributes, PageAddress};
use starlight_mmu::memory::mmu::{
    kernel_translation_tables, try_kernel_page_attributes,
    try_kernel_virt_page_addr_to_phys_page_addr, MemorySubsystem,
};
use starlight_mmu::memory::{Address, Virtual};

fn sample_layout() -> KernelVirtualLayout {
    KernelVirtualLayout {
        code_start: 0x0008_0000,
        code_size: 0x2_0000,
        data_start: 0x000A_0000,
        data_size: 0x1_0000,
        heap_start: 0x000B_0000,
        heap_size: 0x4_0000,
        mmio_remap_start: 0x1000_0000,
        mmio_remap_size: 0x10_0000,
        boot_core_stack_start: 0x0010_0000,
        boot_core_stack_size: 0x1_0000,
    }
}

#[test]
fn board_constants() {
    assert_eq!(phys_addr_space_end_exclusive_addr().into_inner().as_usize(), 0x4001_0000);
    assert_eq!(kernel_virt_addr_space_size(), KERNEL_VIRT_ADDR_SPACE_SIZE);
    assert_eq!(size_to_num_pages(0x2_0000), 2);
}

#[test]
fn layout_regions_span_their_sections() {
    let layout = sample_layout();
    let code = virt_code_region(&layout);
    assert_eq!(code.start_addr().as_usize(), 0x0008_0000);
    assert_eq!(code.num_pages(), 2);
    assert_eq!(virt_data_region(&layout).num_pages(), 1);
    assert_eq!(virt_heap_region(&layout).num_pages(), 4);
    let remap = virt_mmio_remap_region(&layout);
    assert_eq!(remap.start_addr().as_usize(), 0x1000_0000);
    assert_eq!(remap.num_pages(), 16);
    assert_eq!(virt_boot_core_stack_region(&layout).start_addr().as_usize(), 0x0010_0000);
}

fn bottom_up_subsystem() -> MemorySubsystem {
    let mut tables = FixedSizeTranslationTable::new(1, Address::new(0x0800_0000));
    tables.init();
    MemorySubsystem::new(tables, 8)
}

#[test]
fn bottom_up_strategy_identity_maps_the_binary() {
    let mut s = bottom_up_subsystem();
    let layout = sample_layout();
    let base = kernel_map_binary(&mut s, &layout).unwrap();
    assert_eq!(base.as_usize(), 0x0801_0000);
    assert_eq!(base.as_usize(), kernel_translation_tables(&s).phys_base_address().as_usize());

    // Identity mapping: code pages translate to themselves.
    let code_page = PageAddress::new(Address::<Virtual>::new(0x0008_0000));
    let phys = try_kernel_virt_page_addr_to_phys_page_addr(&s, code_page).unwrap();
    assert_eq!(phys.into_inner().as_usize(), 0x0008_0000);

    // Code is read-only and executable; data is read-write and
    // execute-never.
    let code_attr = try_kernel_page_attributes(&s, code_page).unwrap();
    assert_eq!(code_attr.access_permissions, AccessPermissions::ReadOnly);
    assert_eq!(code_attr.mem_attributes, MemAttributes::CacheableDRAM);
    assert!(!code_attr.execute_never);
    let data_page = PageAddress::new(Address::<Virtual>::new(0x000A_0000));
    let data_attr = try_kernel_page_attributes(&s, data_page).unwrap();
    assert_eq!(data_attr.access_permissions, AccessPermissions::ReadWrite);
    assert!(data_attr.execute_never);

    // All four regions were recorded, sorted by virtual start address.
    let virts: Vec<usize> =
        s.mapping_record.inner.iter().map(|e| e.virt_start_addr.as_usize()).collect();
    assert_eq!(virts, vec![0x0008_0000, 0x000A_0000, 0x000B_0000, 0x0010_0000]);

    // The MMIO remap window was not mapped: it is allocated on demand.
    let remap_page = PageAddress::new(Address::<Virtual>::new(0x1000_0000));
    assert!(try_kernel_virt_page_addr_to_phys_page_addr(&s, remap_page).is_err());
}

#[test]
fn precomputed_strategy_backfills_the_ledger_from_the_live_table() {
    // Build a live table bottom-up, then hand it to a subsystem with an
    // empty ledger, as a kernel running from precomputed tables would.
    let mut boot = bottom_up_subsystem();
    let layout = sample_layout();
    kernel_map_binary(&mut boot, &layout).unwrap();

    let mut s = MemorySubsystem::new(boot.tables, 8);
    assert_eq!(s.mapping_record.inner.len(), 0);
    kernel_add_mapping_records_for_precomputed(&mut s, &layout).unwrap();

    assert_eq!(s.mapping_record.inner.len(), 4);
    let code_entry = &s.mapping_record.inner[0];
    assert_eq!(code_entry.users, vec!["Kernel code and RO data"]);
    assert_eq!(code_entry.virt_start_addr.as_usize(), 0x0008_0000);
    assert_eq!(code_entry.phys_start_addr.as_usize(), 0x0008_0000);
    assert_eq!(code_entry.num_pages, 2);
    assert_eq!(code_entry.attribute_fields.access_permissions, AccessPermissions::ReadOnly);
    let stack_entry = &s.mapping_record.inner[3];
    assert_eq!(stack_entry.users, vec!["Kernel boot-core stack"]);
}

#[test]
fn precomputed_backfill_fails_on_an_unmapped_table() {
    let mut s = bottom_up_subsystem();
    let layout = sample_layout();
    let r = kernel_add_mapping_records_for_precomputed(&mut s, &layout);
    assert_eq!(r.unwrap_err(), "virtual page is not mapped");
    assert_eq!(s.mapping_record.inner.len(), 0);
}

#[test]
fn pending_irqs_drain_lowest_first() {
    let mut pending = PendingIRQs::new(0b1010_0100);
    assert_eq!(pending.next(), Some(2));
    assert_eq!(pending.next(), Some(5));
    assert_eq!(pending.next(), Some(7));
    assert_eq!(pending.next(), None);

    let mut empty = PendingIRQs::new(0);
    assert_eq!(empty.next(), None);

    let mut high = PendingIRQs::new(1 << 63);
    assert_eq!(high.next(), Some(63));
    assert_eq!(high.next(), None);
}

struct CountingHandler;

impl IRQHandler for CountingHandler {
    fn handle(&self) -> Result<(), &'static str> {
        Ok(())
    }
}

#[test]
fn irq_handler_descriptors_carry_their_registration() {
    let handler: &'static CountingHandler = Box::leak(Box::new(CountingHandler));
    let number: PeripheralIRQ = BoundedUsize::new(57);
    let desc = IRQHandlerDescriptor::new(number, "uart", handler);
    assert_eq!(desc.number().get(), 57);
    assert_eq!(desc.name(), "uart");
    assert!(desc.handler().handle().is_ok());
}

#[test]
fn irq_numbers_carry_their_bounded_values() {
    let peripheral: PeripheralIRQ = BoundedUsize::new(57);
    let irq = IRQNumber::Peripheral(peripheral);
    match irq {
        IRQNumber::Peripheral(n) => assert_eq!(n.get(), 57),
        IRQNumber::Local(_) => panic!("wrong variant"),
    }
}
