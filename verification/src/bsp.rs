//! Board support: the memory map of the target board, the layout of the
//! kernel binary as the linker placed it, and the board's interrupt
//! numbering.

use vstd::prelude::*;

verus! {

use crate::common::{spec_is_aligned, BoundedUsize};
use crate::memory::mmu::types::{MemoryRegion, PageAddress};
use crate::memory::{Address, Physical, Virtual};

/// Size of the kernel's translation granule: 64 KiB pages.
pub const KERNEL_GRANULE_SIZE: usize = 64 * 1024;

pub const KERNEL_GRANULE_SHIFT: usize = 16;

pub const KERNEL_GRANULE_MASK: usize = 64 * 1024 - 1;

/// Total virtual address span covered by the kernel's top-level table.
pub const KERNEL_VIRT_ADDR_SPACE_SIZE: usize = 1024 * 1024 * 1024;

/// Number of top-level windows the configured address space needs: its
/// size divided by the 512 MiB covered per top-level descriptor.
pub const KERNEL_NUM_TABLES: usize = 1024 * 1024 * 1024 / (512 * 1024 * 1024);

// Physical addresses of the board's MMIO device blocks.
pub const PERIPHERAL_IC_START: usize = 0x3F00_B200;

pub const PERIPHERAL_IC_SIZE: usize = 0x24;

pub const GPIO_START: usize = 0x3F20_0000;

pub const GPIO_SIZE: usize = 0xA0;

pub const PL011_UART_START: usize = 0x3F20_1000;

pub const PL011_UART_SIZE: usize = 0x48;

/// First physical address beyond the board's physical address space.
pub const PHYS_ADDR_SPACE_END_EXCLUSIVE: usize = 0x4001_0000;

/// The exclusive end of the board's physical address space, as a page
/// address.
pub fn phys_addr_space_end_exclusive_addr() -> (r: PageAddress<Physical>)
    ensures
        r.inner.value == PHYS_ADDR_SPACE_END_EXCLUSIVE,
        r.well_formed(),
{
    PageAddress::new(Address::new(PHYS_ADDR_SPACE_END_EXCLUSIVE))
}

/// The configured virtual address-space size.
pub fn kernel_virt_addr_space_size() -> (r: usize)
    ensures
        r == KERNEL_VIRT_ADDR_SPACE_SIZE,
{
    KERNEL_VIRT_ADDR_SPACE_SIZE
}

/// The virtual placement of the kernel binary's sections, as the link
/// step computed it: start address and size of each region. The values
/// come from linker symbols and are treated as opaque, already aligned
/// inputs.
#[derive(Copy, Clone, Debug, PartialEq, Eq, Structural)]
pub struct KernelVirtualLayout {
    pub code_start: usize,
    pub code_size: usize,
    pub data_start: usize,
    pub data_size: usize,
    pub heap_start: usize,
    pub heap_size: usize,
    pub mmio_remap_start: usize,
    pub mmio_remap_size: usize,
    pub boot_core_stack_start: usize,
    pub boot_core_stack_size: usize,
}

/// One layout region is usable: page-aligned start, a whole positive
/// number of pages, and no wrap-around.
pub open spec fn spec_layout_region_ok(start: int, size: int) -> bool {
    &&& spec_is_aligned(start, KERNEL_GRANULE_SIZE as int)
    &&& size > 0
    &&& size % (KERNEL_GRANULE_SIZE as int) == 0
    &&& start + size <= usize::MAX
}

impl KernelVirtualLayout {
    pub open spec fn well_formed(self) -> bool {
        &&& spec_layout_region_ok(self.code_start as int, self.code_size as int)
        &&& spec_layout_region_ok(self.data_start as int, self.data_size as int)
        &&& spec_layout_region_ok(self.heap_start as int, self.heap_size as int)
        &&& spec_layout_region_ok(self.mmio_remap_start as int, self.mmio_remap_size as int)
        &&& spec_layout_region_ok(
            self.boot_core_stack_start as int,
            self.boot_core_stack_size as int,
        )
    }
}

/// Convert a region size in bytes to whole pages.
pub fn size_to_num_pages(size: usize) -> (r: usize)
    requires
        size > 0,
        size as int % (KERNEL_GRANULE_SIZE as int) == 0,
    ensures
        r == size as int / (KERNEL_GRANULE_SIZE as int),
        r >= 1,
{
    proof {
        vstd::arithmetic::div_mod::lemma_fundamental_div_mod(
            size as int,
            KERNEL_GRANULE_SIZE as int,
        );
        vstd::arithmetic::div_mod::lemma_div_pos_is_pos(size as int, KERNEL_GRANULE_SIZE as int);
        if size as int / (KERNEL_GRANULE_SIZE as int) == 0 {
            assert(size as int == KERNEL_GRANULE_SIZE as int * 0 + size as int % (
            KERNEL_GRANULE_SIZE as int));
        }
    }
    size / KERNEL_GRANULE_SIZE
}

/// Build the virtual region `[start, start + size)`.
fn virt_region_from(start: usize, size: usize) -> (r: MemoryRegion<Virtual>)
    requires
        spec_layout_region_ok(start as int, size as int),
    ensures
        r.start.inner.value == start,
        r.end_exclusive.inner.value == start + size,
        r.well_formed(),
        r.spec_num_pages() == size as int / (KERNEL_GRANULE_SIZE as int),
        r.spec_num_pages() >= 1,
{
    let num_pages = size_to_num_pages(size);
    proof {
        vstd::arithmetic::div_mod::lemma_add_mod_noop(
            start as int,
            size as int,
            KERNEL_GRANULE_SIZE as int,
        );
    }
    let start_page_addr = PageAddress::new(Address::new(start));
    let end_exclusive_page_addr = PageAddress::new(Address::new(start + size));
    let r = MemoryRegion::new(start_page_addr, end_exclusive_page_addr);
    proof {
        crate::memory::mmu::types::lemma_region_arith(r);
        vstd::arithmetic::div_mod::lemma_fundamental_div_mod(
            size as int,
            KERNEL_GRANULE_SIZE as int,
        );
    }
    r
}

/// The kernel's code and read-only data region.
pub fn virt_code_region(layout: &KernelVirtualLayout) -> (r: MemoryRegion<Virtual>)
    requires
        layout.well_formed(),
    ensures
        r.start.inner.value == layout.code_start,
        r.end_exclusive.inner.value == layout.code_start + layout.code_size,
        r.well_formed(),
        r.spec_num_pages() >= 1,
{
    virt_region_from(layout.code_start, layout.code_size)
}

/// The kernel's data and zero-initialized data region.
pub fn virt_data_region(layout: &KernelVirtualLayout) -> (r: MemoryRegion<Virtual>)
    requires
        layout.well_formed(),
    ensures
        r.start.inner.value == layout.data_start,
        r.end_exclusive.inner.value == layout.data_start + layout.data_size,
        r.well_formed(),
        r.spec_num_pages() >= 1,
{
    virt_region_from(layout.data_start, layout.data_size)
}

/// The kernel's heap region.
pub fn virt_heap_region(layout: &KernelVirtualLayout) -> (r: MemoryRegion<Virtual>)
    requires
        layout.well_formed(),
    ensures
        r.start.inner.value == layout.heap_start,
        r.end_exclusive.inner.value == layout.heap_start + layout.heap_size,
        r.well_formed(),
        r.spec_num_pages() >= 1,
{
    virt_region_from(layout.heap_start, layout.heap_size)
}

/// The window reserved for remapping MMIO device registers.
pub fn virt_mmio_remap_region(layout: &KernelVirtualLayout) -> (r: MemoryRegion<Virtual>)
    requires
        layout.well_formed(),
    ensures
        r.start.inner.value == layout.mmio_remap_start,
        r.end_exclusive.inner.value == layout.mmio_remap_start + layout.mmio_remap_size,
        r.well_formed(),
        r.spec_num_pages() >= 1,
{
    virt_region_from(layout.mmio_remap_start, layout.mmio_remap_size)
}

/// The boot core's stack region.
pub fn virt_boot_core_stack_region(layout: &KernelVirtualLayout) -> (r: MemoryRegion<Virtual>)
    requires
        layout.well_formed(),
    ensures
        r.start.inner.value == layout.boot_core_stack_start,
        r.end_exclusive.inner.value == layout.boot_core_stack_start
            + layout.boot_core_stack_size,
        r.well_formed(),
        r.spec_num_pages() >= 1,
{
    virt_region_from(layout.boot_core_stack_start, layout.boot_core_stack_size)
}

/// The translation table can resolve a region of `num_pages` pages at
/// virtual page address `start`: the start page's slot exists, is valid
/// and decodable, and its physical counterpart leaves room for the whole
/// region.
pub open spec fn spec_region_resolvable(
    t: crate::memory::mmu::translation_table::FixedSizeTranslationTable,
    start: int,
    num_pages: int,
) -> bool {
    let slot = t.spec_slot(crate::memory::mmu::translation_table::spec_slot_index(start));
    &&& t.spec_addr_in_bounds(start)
    &&& crate::memory::mmu::translation_table::spec_desc_is_valid(slot)
    &&& t.spec_slot_descriptor(
        crate::memory::mmu::translation_table::spec_slot_index(start),
    ).spec_attributes_decodable()
    &&& crate::memory::mmu::translation_table::spec_desc_output_addr(slot) + num_pages
        * KERNEL_GRANULE_SIZE <= usize::MAX
}

/// The physical start address that a walk of `t` recovers for the
/// region starting at virtual page address `virt_start`.
pub open spec fn spec_walked_phys_start(
    t: crate::memory::mmu::translation_table::FixedSizeTranslationTable,
    virt_start: int,
) -> int {
    crate::memory::mmu::translation_table::spec_desc_output_addr(
        t.spec_slot(crate::memory::mmu::translation_table::spec_slot_index(virt_start)),
    )
}

/// The attributes that a walk of `t` reads back for the region starting
/// at virtual page address `virt_start`.
pub open spec fn spec_walked_attributes(
    t: crate::memory::mmu::translation_table::FixedSizeTranslationTable,
    virt_start: int,
) -> crate::memory::mmu::types::AttributeFields {
    t.spec_slot_descriptor(
        crate::memory::mmu::translation_table::spec_slot_index(virt_start),
    ).spec_decoded_attributes()
}

/// The ledger went from `rec0` to `rec4` by recording, in order, the
/// code, data, heap and boot-core-stack regions of `layout`, each with
/// its name, its physical counterpart walked from `t`, its page count
/// and its read-back attributes; `r1`..`r3` are the intermediate ledgers.
pub open spec fn spec_backfilled_in_order(
    t: crate::memory::mmu::translation_table::FixedSizeTranslationTable,
    rec0: crate::memory::mmu::mapping_record::MappingRecord,
    r1: crate::memory::mmu::mapping_record::MappingRecord,
    r2: crate::memory::mmu::mapping_record::MappingRecord,
    r3: crate::memory::mmu::mapping_record::MappingRecord,
    rec4: crate::memory::mmu::mapping_record::MappingRecord,
    layout: KernelVirtualLayout,
) -> bool {
    let g = KERNEL_GRANULE_SIZE as int;
    &&& crate::memory::mmu::mapping_record::MappingRecord::spec_added(
        rec0,
        r1,
        "Kernel code and RO data",
        layout.code_start as int,
        spec_walked_phys_start(t, layout.code_start as int),
        layout.code_size as int / g,
        spec_walked_attributes(t, layout.code_start as int),
    )
    &&& crate::memory::mmu::mapping_record::MappingRecord::spec_added(
        r1,
        r2,
        "Kernel data and bss",
        layout.data_start as int,
        spec_walked_phys_start(t, layout.data_start as int),
        layout.data_size as int / g,
        spec_walked_attributes(t, layout.data_start as int),
    )
    &&& crate::memory::mmu::mapping_record::MappingRecord::spec_added(
        r2,
        r3,
        "Kernel heap",
        layout.heap_start as int,
        spec_walked_phys_start(t, layout.heap_start as int),
        layout.heap_size as int / g,
        spec_walked_attributes(t, layout.heap_start as int),
    )
    &&& crate::memory::mmu::mapping_record::MappingRecord::spec_added(
        r3,
        rec4,
        "Kernel boot-core stack",
        layout.boot_core_stack_start as int,
        spec_walked_phys_start(t, layout.boot_core_stack_start as int),
        layout.boot_core_stack_size as int / g,
        spec_walked_attributes(t, layout.boot_core_stack_start as int),
    )
}

/// Recover one region's physical counterpart and attributes by walking
/// the live table, and register the result in the ledger. A full ledger
/// only costs the diagnostic entry and is not an error.
fn add_record_for_precomputed_region(
    s: &mut crate::memory::mmu::MemorySubsystem,
    name: &'static str,
    virt_region: MemoryRegion<Virtual>,
) -> (r: Result<(), &'static str>)
    requires
        old(s).well_formed(),
        virt_region.well_formed(),
        virt_region.spec_num_pages() >= 1,
    ensures
        final(s).well_formed(),
        final(s).tables == old(s).tables,
        final(s).mmio_va_allocator == old(s).mmio_va_allocator,
        final(s).mapping_record.capacity == old(s).mapping_record.capacity,
        r is Ok <==> spec_region_resolvable(
            old(s).tables,
            virt_region.start.inner.value as int,
            virt_region.spec_num_pages(),
        ),
        r is Err ==> final(s).mapping_record == old(s).mapping_record,
        r is Ok && old(s).mapping_record.inner@.len() < old(s).mapping_record.capacity
            ==> crate::memory::mmu::mapping_record::MappingRecord::spec_added(
            old(s).mapping_record,
            final(s).mapping_record,
            name,
            virt_region.start.inner.value as int,
            spec_walked_phys_start(old(s).tables, virt_region.start.inner.value as int),
            virt_region.spec_num_pages(),
            spec_walked_attributes(old(s).tables, virt_region.start.inner.value as int),
        ),
        r is Ok && old(s).mapping_record.inner@.len() >= old(s).mapping_record.capacity
            ==> final(s).mapping_record == old(s).mapping_record,
{
    proof {
        crate::memory::mmu::types::lemma_region_arith(virt_region);
    }
    let start_page = virt_region.start_page_addr();
    let num_pages = virt_region.num_pages();
    let phys_start_page = crate::memory::mmu::try_kernel_virt_page_addr_to_phys_page_addr(
        s,
        start_page,
    )?;
    let attr = crate::memory::mmu::try_kernel_page_attributes(s, start_page)?;
    let phys_end_page = match phys_start_page.checked_offset(num_pages as isize) {
        Some(addr) => addr,
        None => {
            return Err("physical region out of range");
        },
    };
    let phys_region = MemoryRegion::new(phys_start_page, phys_end_page);
    proof {
        crate::memory::mmu::types::lemma_region_arith(phys_region);
        vstd::arithmetic::div_mod::lemma_div_multiples_vanish(
            num_pages as int,
            KERNEL_GRANULE_SIZE as int,
        );
        assert((num_pages as int) * (KERNEL_GRANULE_SIZE as int) == (KERNEL_GRANULE_SIZE as int)
            * (num_pages as int)) by (nonlinear_arith);
    }
    match crate::memory::mmu::kernel_add_mapping_record(s, name, &virt_region, &phys_region, &attr) {
        Ok(()) => {},
        Err(_) => {
            // The ledger is full: only the diagnostic entry is lost.
        },
    }
    Ok(())
}

/// Backfill the ledger for a table whose contents an offline tool
/// precomputed: recover each kernel region's physical counterpart and
/// attributes by walking the already-active table, then record them.
pub fn kernel_add_mapping_records_for_precomputed(
    s: &mut crate::memory::mmu::MemorySubsystem,
    layout: &KernelVirtualLayout,
) -> (r: Result<(), &'static str>)
    requires
        old(s).well_formed(),
        layout.well_formed(),
    ensures
        final(s).well_formed(),
        final(s).tables == old(s).tables,
        final(s).mmio_va_allocator == old(s).mmio_va_allocator,
        final(s).mapping_record.capacity == old(s).mapping_record.capacity,
        old(s).mapping_record.inner@.len() <= final(s).mapping_record.inner@.len(),
        final(s).mapping_record.inner@.len() <= old(s).mapping_record.inner@.len() + 4,
        r is Ok && old(s).mapping_record.inner@.len() + 4 <= old(s).mapping_record.capacity
            ==> exists|
            r1: crate::memory::mmu::mapping_record::MappingRecord,
            r2: crate::memory::mmu::mapping_record::MappingRecord,
            r3: crate::memory::mmu::mapping_record::MappingRecord,
        |
            spec_backfilled_in_order(
                old(s).tables,
                old(s).mapping_record,
                r1,
                r2,
                r3,
                final(s).mapping_record,
                *layout,
            ),
        r is Ok <==> {
            let g = KERNEL_GRANULE_SIZE as int;
            &&& spec_region_resolvable(
                old(s).tables,
                layout.code_start as int,
                layout.code_size as int / g,
            )
            &&& spec_region_resolvable(
                old(s).tables,
                layout.data_start as int,
                layout.data_size as int / g,
            )
            &&& spec_region_resolvable(
                old(s).tables,
                layout.heap_start as int,
                layout.heap_size as int / g,
            )
            &&& spec_region_resolvable(
                old(s).tables,
                layout.boot_core_stack_start as int,
                layout.boot_core_stack_size as int / g,
            )
        },
{
    let code_region = virt_code_region(layout);
    add_record_for_precomputed_region(s, "Kernel code and RO data", code_region)?;
    let ghost ledger_after_code = s.mapping_record;
    let data_region = virt_data_region(layout);
    add_record_for_precomputed_region(s, "Kernel data and bss", data_region)?;
    let ghost ledger_after_data = s.mapping_record;
    let heap_region = virt_heap_region(layout);
    add_record_for_precomputed_region(s, "Kernel heap", heap_region)?;
    let ghost ledger_after_heap = s.mapping_record;
    let stack_region = virt_boot_core_stack_region(layout);
    add_record_for_precomputed_region(s, "Kernel boot-core stack", stack_region)?;
    proof {
        if old(s).mapping_record.inner@.len() + 4 <= old(s).mapping_record.capacity {
            assert(spec_backfilled_in_order(
                old(s).tables,
                old(s).mapping_record,
                ledger_after_code,
                ledger_after_data,
                ledger_after_heap,
                s.mapping_record,
                *layout,
            ));
        }
    }
    Ok(())
}

/// Attributes of the kernel's code and read-only data: cacheable,
/// read-only, executable.
pub open spec fn spec_code_attributes() -> crate::memory::mmu::types::AttributeFields {
    crate::memory::mmu::types::AttributeFields {
        mem_attributes: crate::memory::mmu::types::MemAttributes::CacheableDRAM,
        access_permissions: crate::memory::mmu::types::AccessPermissions::ReadOnly,
        execute_never: false,
    }
}

/// Attributes of the kernel's writable regions: cacheable, read-write,
/// never executable.
pub open spec fn spec_data_attributes() -> crate::memory::mmu::types::AttributeFields {
    crate::memory::mmu::types::AttributeFields {
        mem_attributes: crate::memory::mmu::types::MemAttributes::CacheableDRAM,
        access_permissions: crate::memory::mmu::types::AccessPermissions::ReadWrite,
        execute_never: true,
    }
}

/// Slot `idx` translates a page of the region `[start, start + size)`.
pub open spec fn spec_in_slot_range(idx: int, start: int, size: int) -> bool {
    let g = KERNEL_GRANULE_SIZE as int;
    start / g <= idx < start / g + size / g
}

/// `post` is `pre` with the kernel binary's four regions identity-mapped:
/// code as read-only executable, data, heap and stack as read-write
/// non-executable, and no other slot touched.
pub open spec fn spec_binary_mapped(
    pre: crate::memory::mmu::translation_table::FixedSizeTranslationTable,
    post: crate::memory::mmu::translation_table::FixedSizeTranslationTable,
    layout: KernelVirtualLayout,
) -> bool {
    let g = KERNEL_GRANULE_SIZE as int;
    &&& post.lvl3@.len() == pre.lvl3@.len()
    &&& (forall|j: int|
        0 <= j < layout.code_size as int / g ==> #[trigger] post.spec_slot(
            layout.code_start as int / g + j,
        ) == crate::memory::mmu::translation_table::spec_page_descriptor(
            layout.code_start + j * g,
            spec_code_attributes(),
        ))
    &&& (forall|j: int|
        0 <= j < layout.data_size as int / g ==> #[trigger] post.spec_slot(
            layout.data_start as int / g + j,
        ) == crate::memory::mmu::translation_table::spec_page_descriptor(
            layout.data_start + j * g,
            spec_data_attributes(),
        ))
    &&& (forall|j: int|
        0 <= j < layout.heap_size as int / g ==> #[trigger] post.spec_slot(
            layout.heap_start as int / g + j,
        ) == crate::memory::mmu::translation_table::spec_page_descriptor(
            layout.heap_start + j * g,
            spec_data_attributes(),
        ))
    &&& (forall|j: int|
        0 <= j < layout.boot_core_stack_size as int / g ==> #[trigger] post.spec_slot(
            layout.boot_core_stack_start as int / g + j,
        ) == crate::memory::mmu::translation_table::spec_page_descriptor(
            layout.boot_core_stack_start + j * g,
            spec_data_attributes(),
        ))
    &&& (forall|idx: int|
        0 <= idx < pre.lvl3@.len() && !spec_in_slot_range(
            idx,
            layout.code_start as int,
            layout.code_size as int,
        ) && !spec_in_slot_range(idx, layout.data_start as int, layout.data_size as int)
            && !spec_in_slot_range(idx, layout.heap_start as int, layout.heap_size as int)
            && !spec_in_slot_range(
            idx,
            layout.boot_core_stack_start as int,
            layout.boot_core_stack_size as int,
        ) ==> #[trigger] post.lvl3@[idx] == pre.lvl3@[idx])
}

/// Two byte regions do not share a page.
pub open spec fn spec_regions_disjoint(start_a: int, size_a: int, start_b: int, size_b: int) -> bool {
    start_a + size_a <= start_b || start_b + size_b <= start_a
}

/// The four regions of the kernel binary are pairwise disjoint.
pub open spec fn spec_layout_disjoint(layout: KernelVirtualLayout) -> bool {
    &&& spec_regions_disjoint(
        layout.code_start as int,
        layout.code_size as int,
        layout.data_start as int,
        layout.data_size as int,
    )
    &&& spec_regions_disjoint(
        layout.code_start as int,
        layout.code_size as int,
        layout.heap_start as int,
        layout.heap_size as int,
    )
    &&& spec_regions_disjoint(
        layout.code_start as int,
        layout.code_size as int,
        layout.boot_core_stack_start as int,
        layout.boot_core_stack_size as int,
    )
    &&& spec_regions_disjoint(
        layout.data_start as int,
        layout.data_size as int,
        layout.heap_start as int,
        layout.heap_size as int,
    )
    &&& spec_regions_disjoint(
        layout.data_start as int,
        layout.data_size as int,
        layout.boot_core_stack_start as int,
        layout.boot_core_stack_size as int,
    )
    &&& spec_regions_disjoint(
        layout.heap_start as int,
        layout.heap_size as int,
        layout.boot_core_stack_start as int,
        layout.boot_core_stack_size as int,
    )
}

/// The whole region lies below the given byte bound.
pub open spec fn spec_region_below(start: int, size: int, bound: int) -> bool {
    start + size <= bound
}

/// Identity-map one region of the kernel binary and record it.
fn map_binary_region(
    s: &mut crate::memory::mmu::MemorySubsystem,
    name: &'static str,
    virt_region: MemoryRegion<Virtual>,
    attr: &crate::memory::mmu::types::AttributeFields,
) -> (r: Result<(), &'static str>)
    requires
        old(s).well_formed(),
        old(s).tables.initialized,
        virt_region.well_formed(),
        virt_region.spec_num_pages() >= 1,
        virt_region.end_exclusive.inner.value <= PHYS_ADDR_SPACE_END_EXCLUSIVE,
        virt_region.end_exclusive.inner.value as int <= old(s).tables.lvl3@.len() * (
        KERNEL_GRANULE_SIZE as int),
        forall|j: int|
            0 <= j < virt_region.spec_num_pages()
                ==> !crate::memory::mmu::translation_table::spec_desc_is_valid(
                #[trigger] old(s).tables.spec_slot(
                    crate::memory::mmu::translation_table::spec_slot_index(
                        virt_region.start.inner.value as int,
                    ) + j,
                ),
            ),
    ensures
        final(s).well_formed(),
        final(s).tables.initialized,
        final(s).tables.lvl2 == old(s).tables.lvl2,
        final(s).tables.phys_start == old(s).tables.phys_start,
        final(s).tables.lvl3@.len() == old(s).tables.lvl3@.len(),
        final(s).mmio_va_allocator == old(s).mmio_va_allocator,
        final(s).mapping_record.capacity == old(s).mapping_record.capacity,
        r is Ok,
        old(s).tables.spec_slots_written(
            final(s).tables,
            virt_region.start.inner.value as int,
            virt_region.start.inner.value as int,
            *attr,
            virt_region.spec_num_pages(),
        ),
        old(s).mapping_record.inner@.len() < old(s).mapping_record.capacity
            ==> crate::memory::mmu::mapping_record::MappingRecord::spec_added(
            old(s).mapping_record,
            final(s).mapping_record,
            name,
            virt_region.start.inner.value as int,
            virt_region.start.inner.value as int,
            virt_region.spec_num_pages(),
            *attr,
        ),
        old(s).mapping_record.inner@.len() >= old(s).mapping_record.capacity
            ==> final(s).mapping_record == old(s).mapping_record,
{
    proof {
        crate::memory::mmu::types::lemma_region_arith(virt_region);
    }
    let phys_region = MemoryRegion::<Physical>::new(
        PageAddress::new(Address::new(virt_region.start_addr().as_usize())),
        PageAddress::new(Address::new(virt_region.end_exclusive_page_addr().into_inner().as_usize())),
    );
    proof {
        crate::memory::mmu::types::lemma_region_arith(phys_region);
        let g = KERNEL_GRANULE_SIZE as int;
        let vs = virt_region.start.inner.value as int;
        let n = virt_region.spec_num_pages();
        assert forall|j: int| 0 <= j < n implies old(s).tables.spec_map_target_ok(
            vs + #[trigger] (j * KERNEL_GRANULE_SIZE),
        ) by {
            crate::memory::mmu::translation_table::lemma_aligned_page_step(vs, j);
            assert(vs + j * g < virt_region.end_exclusive.inner.value);
            crate::memory::mmu::translation_table::lemma_index_split(
                virt_region.end_exclusive.inner.value as int - 1,
                old(s).tables.lvl2@.len() as int,
            );
            assert(crate::memory::mmu::translation_table::spec_slot_index(vs + j * g)
                < old(s).tables.lvl3@.len()) by {
                vstd::arithmetic::div_mod::lemma_div_is_ordered(
                    vs + j * g,
                    virt_region.end_exclusive.inner.value - 1,
                    g,
                );
                let table_len = old(s).tables.lvl3@.len() as int;
                vstd::arithmetic::mul::lemma_mul_is_commutative(table_len, g);
                vstd::arithmetic::div_mod::lemma_multiply_divide_lt(
                    virt_region.end_exclusive.inner.value - 1,
                    g,
                    old(s).tables.lvl3@.len() as int,
                );
            };
        };
    }
    match s.tables.map_at(&virt_region, &phys_region, attr) {
        Ok(()) => {},
        Err(msg) => {
            proof {
                assert(false);
            }
            return Err(msg);
        },
    }
    match crate::memory::mmu::kernel_add_mapping_record(s, name, &virt_region, &phys_region, attr) {
        Ok(()) => {},
        Err(_) => {
            // The ledger is full: only the diagnostic entry is lost.
        },
    }
    Ok(())
}

/// The ledger went from `rec0` to `rec4` by recording, in order, the
/// identity mappings of the code, data, heap and boot-core-stack regions
/// of `layout`, code as read-only executable and the rest as read-write
/// non-executable; `r1`..`r3` are the intermediate ledgers.
pub open spec fn spec_binary_recorded_in_order(
    rec0: crate::memory::mmu::mapping_record::MappingRecord,
    r1: crate::memory::mmu::mapping_record::MappingRecord,
    r2: crate::memory::mmu::mapping_record::MappingRecord,
    r3: crate::memory::mmu::mapping_record::MappingRecord,
    rec4: crate::memory::mmu::mapping_record::MappingRecord,
    layout: KernelVirtualLayout,
) -> bool {
    let g = KERNEL_GRANULE_SIZE as int;
    &&& crate::memory::mmu::mapping_record::MappingRecord::spec_added(
        rec0,
        r1,
        "Kernel code and RO data",
        layout.code_start as int,
        layout.code_start as int,
        layout.code_size as int / g,
        spec_code_attributes(),
    )
    &&& crate::memory::mmu::mapping_record::MappingRecord::spec_added(
        r1,
        r2,
        "Kernel data and bss",
        layout.data_start as int,
        layout.data_start as int,
        layout.data_size as int / g,
        spec_data_attributes(),
    )
    &&& crate::memory::mmu::mapping_record::MappingRecord::spec_added(
        r2,
        r3,
        "Kernel heap",
        layout.heap_start as int,
        layout.heap_start as int,
        layout.heap_size as int / g,
        spec_data_attributes(),
    )
    &&& crate::memory::mmu::mapping_record::MappingRecord::spec_added(
        r3,
        rec4,
        "Kernel boot-core stack",
        layout.boot_core_stack_start as int,
        layout.boot_core_stack_start as int,
        layout.boot_core_stack_size as int / g,
        spec_data_attributes(),
    )
}

/// Byte-disjoint page regions occupy disjoint slot ranges.
proof fn lemma_slot_ranges_disjoint(start_a: int, size_a: int, start_b: int, size_b: int)
    requires
        start_a >= 0,
        start_b >= 0,
        spec_is_aligned(start_a, KERNEL_GRANULE_SIZE as int),
        spec_is_aligned(start_b, KERNEL_GRANULE_SIZE as int),
        size_a >= 0,
        size_b >= 0,
        size_a % (KERNEL_GRANULE_SIZE as int) == 0,
        size_b % (KERNEL_GRANULE_SIZE as int) == 0,
        spec_regions_disjoint(start_a, size_a, start_b, size_b),
    ensures
        forall|idx: int|
            spec_in_slot_range(idx, start_a, size_a) ==> !spec_in_slot_range(
                idx,
                start_b,
                size_b,
            ),
{
    let g = KERNEL_GRANULE_SIZE as int;
    lemma_region_slot_end(start_a, size_a);
    lemma_region_slot_end(start_b, size_b);
    if start_a + size_a <= start_b {
        vstd::arithmetic::div_mod::lemma_div_is_ordered(start_a + size_a, start_b, g);
    } else {
        vstd::arithmetic::div_mod::lemma_div_is_ordered(start_b + size_b, start_a, g);
    }
}

/// For an aligned region, the slot past its last page is the slot of its
/// exclusive end.
proof fn lemma_region_slot_end(start: int, size: int)
    requires
        start >= 0,
        size >= 0,
        spec_is_aligned(start, KERNEL_GRANULE_SIZE as int),
        size % (KERNEL_GRANULE_SIZE as int) == 0,
    ensures
        start / (KERNEL_GRANULE_SIZE as int) + size / (KERNEL_GRANULE_SIZE as int) == (start
            + size) / (KERNEL_GRANULE_SIZE as int),
{
    let g = KERNEL_GRANULE_SIZE as int;
    vstd::arithmetic::div_mod::lemma_fundamental_div_mod(size, g);
    vstd::arithmetic::div_mod::lemma_div_pos_is_pos(size, g);
    crate::memory::mmu::translation_table::lemma_aligned_page_step(start, size / g);
}

/// Every slot of an aligned region that ends within the table exists.
proof fn lemma_slot_range_in_table(start: int, size: int, table_len: int)
    requires
        start >= 0,
        size >= 0,
        spec_is_aligned(start, KERNEL_GRANULE_SIZE as int),
        size % (KERNEL_GRANULE_SIZE as int) == 0,
        start + size <= table_len * KERNEL_GRANULE_SIZE,
        table_len >= 0,
    ensures
        forall|idx: int| spec_in_slot_range(idx, start, size) ==> 0 <= idx < table_len,
{
    let g = KERNEL_GRANULE_SIZE as int;
    lemma_region_slot_end(start, size);
    vstd::arithmetic::div_mod::lemma_div_pos_is_pos(start, g);
    assert((start + size) / g <= table_len) by {
        vstd::arithmetic::mul::lemma_mul_is_commutative(table_len, g);
        vstd::arithmetic::div_mod::lemma_multiply_divide_le(start + size, g, table_len);
    };
}

/// Build the kernel's initial mappings bottom-up, with no pre-existing
/// translation active: identity-map the binary's code (read-only,
/// executable), data, heap and boot-core stack (read-write,
/// non-executable) into a fresh table, record each region, and hand back
/// the physical address of the top-level table for the table-base
/// register.
pub fn kernel_map_binary(
    s: &mut crate::memory::mmu::MemorySubsystem,
    layout: &KernelVirtualLayout,
) -> (r: Result<Address<Physical>, &'static str>)
    requires
        old(s).well_formed(),
        old(s).tables.initialized,
        layout.well_formed(),
        spec_layout_disjoint(*layout),
        spec_region_below(
            layout.code_start as int,
            layout.code_size as int,
            PHYS_ADDR_SPACE_END_EXCLUSIVE as int,
        ),
        spec_region_below(
            layout.data_start as int,
            layout.data_size as int,
            PHYS_ADDR_SPACE_END_EXCLUSIVE as int,
        ),
        spec_region_below(
            layout.heap_start as int,
            layout.heap_size as int,
            PHYS_ADDR_SPACE_END_EXCLUSIVE as int,
        ),
        spec_region_below(
            layout.boot_core_stack_start as int,
            layout.boot_core_stack_size as int,
            PHYS_ADDR_SPACE_END_EXCLUSIVE as int,
        ),
        spec_region_below(
            layout.code_start as int,
            layout.code_size as int,
            old(s).tables.lvl3@.len() * KERNEL_GRANULE_SIZE,
        ),
        spec_region_below(
            layout.data_start as int,
            layout.data_size as int,
            old(s).tables.lvl3@.len() * KERNEL_GRANULE_SIZE,
        ),
        spec_region_below(
            layout.heap_start as int,
            layout.heap_size as int,
            old(s).tables.lvl3@.len() * KERNEL_GRANULE_SIZE,
        ),
        spec_region_below(
            layout.boot_core_stack_start as int,
            layout.boot_core_stack_size as int,
            old(s).tables.lvl3@.len() * KERNEL_GRANULE_SIZE,
        ),
        forall|i: int|
            0 <= i < old(s).tables.lvl3@.len()
                ==> !crate::memory::mmu::translation_table::spec_desc_is_valid(
                #[trigger] old(s).tables.spec_slot(i),
            ),
    ensures
        final(s).well_formed(),
        final(s).tables.initialized,
        final(s).mmio_va_allocator == old(s).mmio_va_allocator,
        r is Ok,
        r->Ok_0.value as int == final(s).tables.spec_phys_base_addr(),
        spec_binary_mapped(old(s).tables, final(s).tables, *layout),
        old(s).mapping_record.inner@.len() + 4 <= old(s).mapping_record.capacity
            ==> exists|
            r1: crate::memory::mmu::mapping_record::MappingRecord,
            r2: crate::memory::mmu::mapping_record::MappingRecord,
            r3: crate::memory::mmu::mapping_record::MappingRecord,
        |
            spec_binary_recorded_in_order(
                old(s).mapping_record,
                r1,
                r2,
                r3,
                final(s).mapping_record,
                *layout,
            ),
{
    let ghost g = KERNEL_GRANULE_SIZE as int;
    let ghost t0 = s.tables;
    let ghost table_len = t0.lvl3@.len() as int;
    proof {
        lemma_slot_range_in_table(layout.code_start as int, layout.code_size as int, table_len);
        lemma_slot_range_in_table(layout.data_start as int, layout.data_size as int, table_len);
        lemma_slot_range_in_table(layout.heap_start as int, layout.heap_size as int, table_len);
        lemma_slot_range_in_table(
            layout.boot_core_stack_start as int,
            layout.boot_core_stack_size as int,
            table_len,
        );
        lemma_region_slot_end(layout.code_start as int, layout.code_size as int);
        lemma_region_slot_end(layout.data_start as int, layout.data_size as int);
        lemma_region_slot_end(layout.heap_start as int, layout.heap_size as int);
        lemma_region_slot_end(
            layout.boot_core_stack_start as int,
            layout.boot_core_stack_size as int,
        );
        lemma_slot_ranges_disjoint(
            layout.data_start as int,
            layout.data_size as int,
            layout.code_start as int,
            layout.code_size as int,
        );
        lemma_slot_ranges_disjoint(
            layout.heap_start as int,
            layout.heap_size as int,
            layout.code_start as int,
            layout.code_size as int,
        );
        lemma_slot_ranges_disjoint(
            layout.heap_start as int,
            layout.heap_size as int,
            layout.data_start as int,
            layout.data_size as int,
        );
        lemma_slot_ranges_disjoint(
            layout.boot_core_stack_start as int,
            layout.boot_core_stack_size as int,
            layout.code_start as int,
            layout.code_size as int,
        );
        lemma_slot_ranges_disjoint(
            layout.boot_core_stack_start as int,
            layout.boot_core_stack_size as int,
            layout.data_start as int,
            layout.data_size as int,
        );
        lemma_slot_ranges_disjoint(
            layout.boot_core_stack_start as int,
            layout.boot_core_stack_size as int,
            layout.heap_start as int,
            layout.heap_size as int,
        );
    }
    let code_region = virt_code_region(layout);
    let code_attr = crate::memory::mmu::types::AttributeFields {
        mem_attributes: crate::memory::mmu::types::MemAttributes::CacheableDRAM,
        access_permissions: crate::memory::mmu::types::AccessPermissions::ReadOnly,
        execute_never: false,
    };
    let data_attr = crate::memory::mmu::types::AttributeFields {
        mem_attributes: crate::memory::mmu::types::MemAttributes::CacheableDRAM,
        access_permissions: crate::memory::mmu::types::AccessPermissions::ReadWrite,
        execute_never: true,
    };
    proof {
        assert forall|j: int|
            0 <= j < code_region.spec_num_pages()
                implies !crate::memory::mmu::translation_table::spec_desc_is_valid(
            #[trigger] t0.spec_slot(
                crate::memory::mmu::translation_table::spec_slot_index(
                    code_region.start.inner.value as int,
                ) + j,
            ),
        ) by {
            let idx = layout.code_start as int / g + j;
            assert(spec_in_slot_range(idx, layout.code_start as int, layout.code_size as int));
            assert(0 <= idx < table_len);
            assert(!crate::memory::mmu::translation_table::spec_desc_is_valid(
                t0.spec_slot(idx),
            ));
        };
    }
    map_binary_region(s, "Kernel code and RO data", code_region, &code_attr)?;
    let ghost t1 = s.tables;
    let ghost ledger_after_code = s.mapping_record;
    let data_region = virt_data_region(layout);
    proof {
        assert forall|j: int|
            0 <= j < data_region.spec_num_pages()
                implies !crate::memory::mmu::translation_table::spec_desc_is_valid(
            #[trigger] t1.spec_slot(
                crate::memory::mmu::translation_table::spec_slot_index(
                    data_region.start.inner.value as int,
                ) + j,
            ),
        ) by {
            let idx = layout.data_start as int / g + j;
            assert(data_region.spec_num_pages() == layout.data_size as int / g);
            assert(spec_in_slot_range(idx, layout.data_start as int, layout.data_size as int));
            assert(0 <= idx < table_len);
            assert(!spec_in_slot_range(idx, layout.code_start as int, layout.code_size as int));
            assert(t0.spec_slots_written(
                t1,
                code_region.start.inner.value as int,
                code_region.start.inner.value as int,
                code_attr,
                code_region.spec_num_pages(),
            ));
            assert(code_region.spec_num_pages() == layout.code_size as int / g);
            assert(crate::memory::mmu::translation_table::spec_slot_index(
                code_region.start.inner.value as int,
            ) == layout.code_start as int / g);
            assert(t1.lvl3@[idx] == t0.lvl3@[idx]);
            assert(!crate::memory::mmu::translation_table::spec_desc_is_valid(
                t0.spec_slot(idx),
            ));
            assert(t1.spec_slot(idx) == t0.spec_slot(idx));
        };
    }
    map_binary_region(s, "Kernel data and bss", data_region, &data_attr)?;
    let ghost t2 = s.tables;
    let ghost ledger_after_data = s.mapping_record;
    let heap_region = virt_heap_region(layout);
    proof {
        assert forall|j: int|
            0 <= j < heap_region.spec_num_pages()
                implies !crate::memory::mmu::translation_table::spec_desc_is_valid(
            #[trigger] t2.spec_slot(
                crate::memory::mmu::translation_table::spec_slot_index(
                    heap_region.start.inner.value as int,
                ) + j,
            ),
        ) by {
            let idx = layout.heap_start as int / g + j;
            assert(spec_in_slot_range(idx, layout.heap_start as int, layout.heap_size as int));
            assert(0 <= idx < table_len);
            assert(t2.lvl3@[idx] == t1.lvl3@[idx]);
            assert(t1.lvl3@[idx] == t0.lvl3@[idx]);
            assert(!crate::memory::mmu::translation_table::spec_desc_is_valid(
                t0.spec_slot(idx),
            ));
            assert(t2.spec_slot(idx) == t0.spec_slot(idx));
        };
    }
    map_binary_region(s, "Kernel heap", heap_region, &data_attr)?;
    let ghost t3 = s.tables;
    let ghost ledger_after_heap = s.mapping_record;
    let stack_region = virt_boot_core_stack_region(layout);
    proof {
        assert forall|j: int|
            0 <= j < stack_region.spec_num_pages()
                implies !crate::memory::mmu::translation_table::spec_desc_is_valid(
            #[trigger] t3.spec_slot(
                crate::memory::mmu::translation_table::spec_slot_index(
                    stack_region.start.inner.value as int,
                ) + j,
            ),
        ) by {
            let idx = layout.boot_core_stack_start as int / g + j;
            assert(spec_in_slot_range(
                idx,
                layout.boot_core_stack_start as int,
                layout.boot_core_stack_size as int,
            ));
            assert(0 <= idx < table_len);
            assert(t3.lvl3@[idx] == t2.lvl3@[idx]);
            assert(t2.lvl3@[idx] == t1.lvl3@[idx]);
            assert(t1.lvl3@[idx] == t0.lvl3@[idx]);
            assert(!crate::memory::mmu::translation_table::spec_desc_is_valid(
                t0.spec_slot(idx),
            ));
            assert(t3.spec_slot(idx) == t0.spec_slot(idx));
        };
    }
    map_binary_region(s, "Kernel boot-core stack", stack_region, &data_attr)?;
    let ghost t4 = s.tables;
    proof {
        assert(code_region.spec_num_pages() == layout.code_size as int / g);
        assert(data_region.spec_num_pages() == layout.data_size as int / g);
        assert(heap_region.spec_num_pages() == layout.heap_size as int / g);
        assert(stack_region.spec_num_pages() == layout.boot_core_stack_size as int / g);
        assert(crate::memory::mmu::translation_table::spec_slot_index(
            code_region.start.inner.value as int,
        ) == layout.code_start as int / g);
        assert(crate::memory::mmu::translation_table::spec_slot_index(
            data_region.start.inner.value as int,
        ) == layout.data_start as int / g);
        assert(crate::memory::mmu::translation_table::spec_slot_index(
            heap_region.start.inner.value as int,
        ) == layout.heap_start as int / g);
        assert(crate::memory::mmu::translation_table::spec_slot_index(
            stack_region.start.inner.value as int,
        ) == layout.boot_core_stack_start as int / g);
        assert forall|j: int|
            0 <= j < layout.code_size as int / g implies #[trigger] t4.spec_slot(
            layout.code_start as int / g + j,
        ) == crate::memory::mmu::translation_table::spec_page_descriptor(
            layout.code_start + j * g,
            spec_code_attributes(),
        ) by {
            let idx = layout.code_start as int / g + j;
            assert(spec_in_slot_range(idx, layout.code_start as int, layout.code_size as int));
            assert(t1.spec_slot(idx) == crate::memory::mmu::translation_table::spec_page_descriptor(
                layout.code_start + j * g,
                spec_code_attributes(),
            ));
            assert(t2.lvl3@[idx] == t1.lvl3@[idx]);
            assert(t3.lvl3@[idx] == t2.lvl3@[idx]);
            assert(t4.lvl3@[idx] == t3.lvl3@[idx]);
        };
        assert forall|j: int|
            0 <= j < layout.data_size as int / g implies #[trigger] t4.spec_slot(
            layout.data_start as int / g + j,
        ) == crate::memory::mmu::translation_table::spec_page_descriptor(
            layout.data_start + j * g,
            spec_data_attributes(),
        ) by {
            let idx = layout.data_start as int / g + j;
            assert(spec_in_slot_range(idx, layout.data_start as int, layout.data_size as int));
            assert(t2.spec_slot(idx) == crate::memory::mmu::translation_table::spec_page_descriptor(
                layout.data_start + j * g,
                spec_data_attributes(),
            ));
            assert(t3.lvl3@[idx] == t2.lvl3@[idx]);
            assert(t4.lvl3@[idx] == t3.lvl3@[idx]);
        };
        assert forall|j: int|
            0 <= j < layout.heap_size as int / g implies #[trigger] t4.spec_slot(
            layout.heap_start as int / g + j,
        ) == crate::memory::mmu::translation_table::spec_page_descriptor(
            layout.heap_start + j * g,
            spec_data_attributes(),
        ) by {
            let idx = layout.heap_start as int / g + j;
            assert(spec_in_slot_range(idx, layout.heap_start as int, layout.heap_size as int));
            assert(t3.spec_slot(idx) == crate::memory::mmu::translation_table::spec_page_descriptor(
                layout.heap_start + j * g,
                spec_data_attributes(),
            ));
            assert(t4.lvl3@[idx] == t3.lvl3@[idx]);
        };
        assert forall|idx: int|
            0 <= idx < t0.lvl3@.len() && !spec_in_slot_range(
                idx,
                layout.code_start as int,
                layout.code_size as int,
            ) && !spec_in_slot_range(idx, layout.data_start as int, layout.data_size as int)
                && !spec_in_slot_range(idx, layout.heap_start as int, layout.heap_size as int)
                && !spec_in_slot_range(
                idx,
                layout.boot_core_stack_start as int,
                layout.boot_core_stack_size as int,
            ) implies #[trigger] t4.lvl3@[idx] == t0.lvl3@[idx] by {
            assert(t1.lvl3@[idx] == t0.lvl3@[idx]);
            assert(t2.lvl3@[idx] == t1.lvl3@[idx]);
            assert(t3.lvl3@[idx] == t2.lvl3@[idx]);
            assert(t4.lvl3@[idx] == t3.lvl3@[idx]);
        };
        assert(spec_binary_mapped(t0, t4, *layout));
        if old(s).mapping_record.inner@.len() + 4 <= old(s).mapping_record.capacity {
            assert(code_attr == spec_code_attributes());
            assert(data_attr == spec_data_attributes());
            assert(spec_binary_recorded_in_order(
                old(s).mapping_record,
                ledger_after_code,
                ledger_after_data,
                ledger_after_heap,
                s.mapping_record,
                *layout,
            ));
        }
    }
    Ok(s.tables.phys_base_address())
}

// Interrupt numbering of the board's controller.
pub const MAX_LOCAL_IRQ_NUMBER: usize = 3;

pub const MAX_PERIPHERAL_IRQ_NUMBER: usize = 63;

pub type LocalIRQ = BoundedUsize<MAX_LOCAL_IRQ_NUMBER>;

pub type PeripheralIRQ = BoundedUsize<MAX_PERIPHERAL_IRQ_NUMBER>;

/// An interrupt number of the board: either a core-local source or a
/// shared peripheral source.
#[derive(Copy, Clone, Debug)]
pub enum IRQNumber {
    Local(LocalIRQ),
    Peripheral(PeripheralIRQ),
}

/// The pending-interrupt bits of the controller, drained lowest first.
pub struct PendingIRQs {
    pub bitmask: u64,
}

impl PendingIRQs {
    pub fn new(bitmask: u64) -> (r: Self)
        ensures
            r.bitmask == bitmask,
    {
        PendingIRQs { bitmask }
    }

    /// Take the lowest pending interrupt number out of the mask: the bits
    /// below the returned index are clear, the bit at it was set and is
    /// cleared.
    pub fn next(&mut self) -> (r: Option<usize>)
        ensures
            old(self).bitmask == 0 ==> r is None && *final(self) == *old(self),
            old(self).bitmask != 0 ==> r is Some && ({
                let k = r->0 as nat;
                &&& k < 64
                &&& old(self).bitmask as nat % vstd::arithmetic::power2::pow2(k) == 0
                &&& (old(self).bitmask as nat / vstd::arithmetic::power2::pow2(k)) % 2 == 1
                &&& final(self).bitmask == old(self).bitmask as nat - vstd::arithmetic::power2::pow2(
                    k,
                )
            }),
    {
        if self.bitmask == 0 {
            return None;
        }
        let mut m = self.bitmask;
        let mut k: usize = 0;
        let mut p: u64 = 1;
        proof {
            vstd::arithmetic::power2::lemma2_to64();
        }
        while m % 2 == 0
            invariant
                m >= 1,
                k < 64,
                p as nat == vstd::arithmetic::power2::pow2(k as nat),
                self.bitmask as nat == m as nat * p as nat,
            decreases m,
        {
            proof {
                vstd::arithmetic::power2::lemma_pow2_unfold((k + 1) as nat);
                assert(m as nat * p as nat == (m as nat / 2) * (2 * p as nat))
                    by (nonlinear_arith)
                    requires
                        m as nat % 2 == 0,
                ;
                assert((m as nat / 2) * (2 * p as nat) >= 2 * p as nat) by (nonlinear_arith)
                    requires
                        m as nat / 2 >= 1,
                ;
                if k + 1 >= 64 {
                    vstd::arithmetic::power2::lemma2_to64();
                    vstd::arithmetic::power2::lemma_pow2_unfold(64);
                    assert(2 * p as nat == vstd::arithmetic::power2::pow2(64));
                    assert(false);
                }
            }
            m = m / 2;
            k = k + 1;
            p = p * 2;
        }
        proof {
            vstd::arithmetic::div_mod::lemma_div_multiples_vanish(m as int, p as int);
            assert(m as int * p as int == p as int * m as int) by (nonlinear_arith);
            assert(m as nat * p as nat >= p as nat) by (nonlinear_arith)
                requires
                    m >= 1,
            ;
            vstd::arithmetic::div_mod::lemma_mod_multiples_basic(m as int, p as int);
        }
        self.bitmask = self.bitmask - p;
        Some(k)
    }
}

/// A typed window onto a device's memory-mapped registers: the virtual
/// base address the device was mapped at, tagged with the register block
/// type that the driver overlays there. Dereferencing it is the
/// runtime's unsafe business; this type only carries the address.
pub struct MMIODerefWrapper<T> {
    pub start_addr: Address<Virtual>,
    pub marker: core::marker::PhantomData<T>,
}

impl<T> MMIODerefWrapper<T> {
    pub fn new(start_addr: Address<Virtual>) -> (r: Self)
        ensures
            r.start_addr == start_addr,
    {
        MMIODerefWrapper { start_addr, marker: core::marker::PhantomData }
    }
}

} // verus!
