//! Memory Management Unit: translation-granule and address-space sizing,
//! and the kernel-wide mapping entry points.

use vstd::prelude::*;

pub mod control;
pub mod mapping_record;
pub mod page_alloc;
pub mod translation_table;
pub mod types;

verus! {

use crate::common::spec_is_power_of_two;
use crate::memory::{Physical, Virtual};

/// Reasons for which enabling the MMU can fail.
#[derive(Debug, PartialEq, Eq)]
pub enum MMUEnableError {
    AlreadyEnabled,
    Other(&'static str),
}

impl MMUEnableError {
    pub fn as_str(&self) -> (r: &'static str)
        ensures
            *self == MMUEnableError::AlreadyEnabled ==> r == "MMU is already enabled",
            forall|s: &'static str| *self == MMUEnableError::Other(s) ==> r == s,
    {
        match self {
            MMUEnableError::AlreadyEnabled => "MMU is already enabled",
            MMUEnableError::Other(x) => x,
        }
    }
}

/// Describes the page size of a translation granule.
///
/// A granule exists only for power-of-two sizes; `size_checked` is the
/// checked constructor of its size.
pub struct TranslationGranule<const GRANULE_SIZE: usize>;

/// Describes the total virtual address span covered by one top-level table.
pub struct AddressSpace<const AS_SIZE: usize>;

/// Size in bytes of the virtual window one top-level table entry covers:
/// 8192 second-level slots of 64 KiB each.
pub const TOP_LEVEL_WINDOW_SIZE: usize = 512 * 1024 * 1024;

/// The architecture caps the virtual address space at 48 bits.
pub const MAX_VIRT_ADDR_SPACE_SIZE: u64 = 0x1_0000_0000_0000;

impl<const GRANULE_SIZE: usize> TranslationGranule<GRANULE_SIZE> {
    /// The granule size, available only when it is a power of two.
    pub fn size_checked() -> (r: Result<usize, &'static str>)
        ensures
            r is Ok <==> spec_is_power_of_two(GRANULE_SIZE as int),
            r is Ok ==> r->Ok_0 == GRANULE_SIZE,
            r is Err ==> r->Err_0 == "granule size must be a power of two",
    {
        if crate::common::is_power_of_two(GRANULE_SIZE) {
            Ok(GRANULE_SIZE)
        } else {
            Err("granule size must be a power of two")
        }
    }

    /// Mask selecting the offset within one granule.
    pub fn mask_checked() -> (r: Result<usize, &'static str>)
        ensures
            r is Ok <==> spec_is_power_of_two(GRANULE_SIZE as int),
            r is Ok ==> r->Ok_0 == GRANULE_SIZE - 1,
    {
        match Self::size_checked() {
            Ok(size) => {
                proof {
                    lemma_power_of_two_pos(GRANULE_SIZE as int);
                }
                Ok(size - 1)
            },
            Err(msg) => Err(msg),
        }
    }

    /// Number of bits of the offset within one granule.
    pub fn shift_checked() -> (r: Result<usize, &'static str>)
        ensures
            r is Ok <==> spec_is_power_of_two(GRANULE_SIZE as int),
            r is Ok ==> r->Ok_0 == crate::common::spec_log2(GRANULE_SIZE as int),
    {
        let size = Self::size_checked()?;
        let mut v = size;
        let mut shift: usize = 0;
        proof {
            crate::common::lemma_log2_bounds(GRANULE_SIZE as int);
            crate::common::lemma_log2_bounds(v as int);
            lemma_power_of_two_pos(GRANULE_SIZE as int);
        }
        while v > 1
            invariant
                1 <= v <= GRANULE_SIZE,
                shift + crate::common::spec_log2(v as int) == crate::common::spec_log2(
                    GRANULE_SIZE as int,
                ),
                crate::common::spec_log2(v as int) >= 0,
                crate::common::spec_log2(GRANULE_SIZE as int) < GRANULE_SIZE,
            decreases v,
        {
            proof {
                crate::common::lemma_log2_bounds(v as int / 2);
            }
            v = v / 2;
            shift = shift + 1;
        }
        proof {
            crate::common::lemma_log2_bounds(GRANULE_SIZE as int);
        }
        Ok(shift)
    }
}

/// A power of two is at least one.
pub proof fn lemma_power_of_two_pos(value: int)
    requires
        spec_is_power_of_two(value),
    ensures
        value >= 1,
{
}

impl<const AS_SIZE: usize> AddressSpace<AS_SIZE> {
    /// The address-space size, available only when it is a power of two, a
    /// multiple of the top-level window size, and within the architectural
    /// 48-bit budget.
    pub fn size_checked() -> (r: Result<usize, &'static str>)
        ensures
            r is Ok <==> spec_is_power_of_two(AS_SIZE as int) && AS_SIZE as int
                % TOP_LEVEL_WINDOW_SIZE as int == 0 && AS_SIZE as int
                <= MAX_VIRT_ADDR_SPACE_SIZE as int,
            r is Ok ==> r->Ok_0 == AS_SIZE,
    {
        if !crate::common::is_power_of_two(AS_SIZE) {
            return Err("address space size must be a power of two");
        }
        if AS_SIZE % TOP_LEVEL_WINDOW_SIZE != 0 {
            return Err("address space size must be a multiple of the top-level window size");
        }
        if AS_SIZE as u64 > MAX_VIRT_ADDR_SPACE_SIZE {
            return Err("address space size exceeds the architectural maximum");
        }
        Ok(AS_SIZE)
    }
}

/// The kernel-wide state of the virtual-memory subsystem: the one
/// translation table, the one mapping ledger and the one MMIO
/// virtual-address allocator, owned together and passed explicitly.
pub struct MemorySubsystem {
    pub tables: crate::memory::mmu::translation_table::FixedSizeTranslationTable,
    pub mapping_record: crate::memory::mmu::mapping_record::MappingRecord,
    pub mmio_va_allocator: crate::memory::mmu::page_alloc::PageAllocator<Virtual>,
}

impl MemorySubsystem {
    pub open spec fn well_formed(self) -> bool {
        &&& self.tables.well_formed()
        &&& self.mapping_record.well_formed()
        &&& self.mmio_va_allocator.well_formed()
    }

    /// Bring up the subsystem around an existing translation table, with
    /// an empty ledger of the given capacity and no MMIO pool yet.
    pub fn new(
        tables: crate::memory::mmu::translation_table::FixedSizeTranslationTable,
        mapping_record_capacity: usize,
    ) -> (r: Self)
        requires
            tables.well_formed(),
        ensures
            r.tables == tables,
            r.mapping_record.inner@.len() == 0,
            r.mapping_record.capacity == mapping_record_capacity,
            r.mmio_va_allocator.pool is None,
            r.well_formed(),
    {
        MemorySubsystem {
            tables,
            mapping_record: crate::memory::mmu::mapping_record::MappingRecord::new(
                mapping_record_capacity,
            ),
            mmio_va_allocator: crate::memory::mmu::page_alloc::PageAllocator::new(),
        }
    }
}

/// The kernel's translation table.
pub fn kernel_translation_tables(s: &MemorySubsystem) -> (r:
    &crate::memory::mmu::translation_table::FixedSizeTranslationTable)
    ensures
        *r == s.tables,
{
    &s.tables
}

/// The allocator that hands out virtual windows for MMIO mappings.
pub fn kernel_mmio_va_allocator(s: &MemorySubsystem) -> (r:
    &crate::memory::mmu::page_alloc::PageAllocator<Virtual>)
    ensures
        *r == s.mmio_va_allocator,
{
    &s.mmio_va_allocator
}

/// Give the MMIO virtual-address allocator its pool. A second call is
/// reported so the caller can log a warning; the pool stays as it was.
pub fn kernel_init_mmio_va_allocator(
    s: &mut MemorySubsystem,
    region: types::MemoryRegion<Virtual>,
) -> (r: Result<(), &'static str>)
    requires
        old(s).well_formed(),
        region.well_formed(),
    ensures
        final(s).well_formed(),
        final(s).tables == old(s).tables,
        final(s).mapping_record == old(s).mapping_record,
        old(s).mmio_va_allocator.pool is None ==> r is Ok && final(s).mmio_va_allocator.pool
            == Some(region),
        old(s).mmio_va_allocator.pool is Some ==> r == Err::<(), &'static str>(
            "already initialized",
        ) && *final(s) == *old(s),
{
    s.mmio_va_allocator.init(region)
}

/// Record one mapping in the kernel ledger; a full ledger is reported to
/// the caller, who logs it as a warning.
pub fn kernel_add_mapping_record(
    s: &mut MemorySubsystem,
    name: &'static str,
    virt_region: &types::MemoryRegion<Virtual>,
    phys_region: &types::MemoryRegion<Physical>,
    attr: &types::AttributeFields,
) -> (r: Result<(), &'static str>)
    requires
        old(s).well_formed(),
        virt_region.well_formed(),
        phys_region.well_formed(),
        virt_region.spec_num_pages() == phys_region.spec_num_pages(),
        phys_region.spec_num_pages() >= 1,
    ensures
        final(s).well_formed(),
        final(s).tables == old(s).tables,
        final(s).mmio_va_allocator == old(s).mmio_va_allocator,
        r is Ok <==> old(s).mapping_record.inner@.len() < old(s).mapping_record.capacity,
        r is Err ==> r == Err::<(), &'static str>("mapping record full") && *final(s) == *old(s),
        r is Ok ==> crate::memory::mmu::mapping_record::MappingRecord::spec_added(
            old(s).mapping_record,
            final(s).mapping_record,
            name,
            virt_region.start.inner.value as int,
            phys_region.start.inner.value as int,
            phys_region.spec_num_pages(),
            *attr,
        ),
{
    crate::memory::mmu::mapping_record::kernel_add(
        &mut s.mapping_record,
        name,
        virt_region,
        phys_region,
        attr,
    )
}

/// The physical page that a virtual page is mapped to, read back from
/// the kernel's translation table.
pub fn try_kernel_virt_page_addr_to_phys_page_addr(
    s: &MemorySubsystem,
    virt_page_addr: types::PageAddress<Virtual>,
) -> (r: Result<types::PageAddress<Physical>, &'static str>)
    requires
        s.well_formed(),
    ensures
        s.tables.spec_lookup_phys_page(virt_page_addr, r),
{
    s.tables.try_virt_page_addr_to_phys_page_addr(virt_page_addr)
}

/// The attributes a virtual page is mapped with, read back from the
/// kernel's translation table.
pub fn try_kernel_page_attributes(
    s: &MemorySubsystem,
    virt_page_addr: types::PageAddress<Virtual>,
) -> (r: Result<types::AttributeFields, &'static str>)
    requires
        s.well_formed(),
    ensures
        s.tables.spec_lookup_attributes(virt_page_addr, r),
{
    s.tables.try_page_attributes(virt_page_addr)
}

/// The attributes every MMIO window is mapped with: device memory,
/// read-write, never executable.
pub open spec fn spec_mmio_attributes() -> types::AttributeFields {
    types::AttributeFields {
        mem_attributes: types::MemAttributes::Device,
        access_permissions: types::AccessPermissions::ReadWrite,
        execute_never: true,
    }
}

/// Physical start page of the window an MMIO descriptor asks for.
pub open spec fn spec_mmio_phys_start(desc: types::MMIODescriptor) -> int {
    crate::common::spec_align_down(
        desc.start_addr.value as int,
        crate::bsp::KERNEL_GRANULE_SIZE as int,
    )
}

/// Number of whole pages the window of an MMIO descriptor covers.
pub open spec fn spec_mmio_num_pages(desc: types::MMIODescriptor) -> int {
    (crate::common::spec_align_up(
        desc.end_addr_exclusive.value as int,
        crate::bsp::KERNEL_GRANULE_SIZE as int,
    ) - spec_mmio_phys_start(desc)) / (crate::bsp::KERNEL_GRANULE_SIZE as int)
}

/// The sole entry point drivers use to obtain a usable virtual address
/// for a device register block.
///
/// A request whose physical window is already recorded as a device
/// mapping reuses the recorded virtual window: the requester's name is
/// added to that ledger entry and no new mapping is installed. Otherwise
/// a fresh virtual window is carved off the MMIO allocator, mapped as
/// device memory, and recorded; a full ledger rejects the request before
/// anything is allocated or mapped, since an unrecorded window could
/// never be deduplicated again. The returned address carries the
/// descriptor's offset into its first page.
#[verifier::rlimit(60)]
pub fn kernel_map_mmio(
    s: &mut MemorySubsystem,
    name: &'static str,
    mmio_descriptor: &types::MMIODescriptor,
) -> (r: Result<crate::memory::Address<Virtual>, &'static str>)
    requires
        old(s).well_formed(),
        old(s).tables.initialized,
        mmio_descriptor.well_formed(),
    ensures
        final(s).well_formed(),
        final(s).tables.initialized,
        ({
            let g = crate::bsp::KERNEL_GRANULE_SIZE as int;
            let ps = spec_mmio_phys_start(*mmio_descriptor);
            let n = spec_mmio_num_pages(*mmio_descriptor);
            let offset = mmio_descriptor.start_addr.value as int % g;
            let record = old(s).mapping_record;
            &&& (exists|i: int|
                0 <= i < record.inner@.len()
                    && crate::memory::mmu::mapping_record::spec_is_mmio_duplicate(
                    #[trigger] record.inner@[i],
                    ps,
                    n,
                )) ==> (exists|i: int|
                {
                    &&& 0 <= i < record.inner@.len()
                    &&& crate::memory::mmu::mapping_record::spec_is_mmio_duplicate(
                        #[trigger] record.inner@[i],
                        ps,
                        n,
                    )
                    &&& (forall|j: int|
                        0 <= j < i
                            ==> !crate::memory::mmu::mapping_record::spec_is_mmio_duplicate(
                            #[trigger] record.inner@[j],
                            ps,
                            n,
                        ))
                    &&& r is Ok
                    &&& r->Ok_0.value == record.inner@[i].virt_start_addr.value + offset
                    &&& crate::memory::mmu::mapping_record::spec_user_added(
                        record,
                        final(s).mapping_record,
                        i,
                        name,
                    )
                    &&& final(s).tables == old(s).tables
                    &&& final(s).mmio_va_allocator == old(s).mmio_va_allocator
                })
            &&& (forall|j: int|
                0 <= j < record.inner@.len()
                    ==> !crate::memory::mmu::mapping_record::spec_is_mmio_duplicate(
                    #[trigger] record.inner@[j],
                    ps,
                    n,
                )) ==> {
                &&& (record.inner@.len() >= record.capacity ==> r == Err::<
                    crate::memory::Address<Virtual>,
                    &'static str,
                >("mapping record full") && *final(s) == *old(s))
                &&& (record.inner@.len() < record.capacity
                    && old(s).mmio_va_allocator.pool is None ==> r == Err::<
                    crate::memory::Address<Virtual>,
                    &'static str,
                >("allocator not initialized") && *final(s) == *old(s))
                &&& record.inner@.len() < record.capacity && old(s).mmio_va_allocator.pool
                    is Some ==> ({
                    let pool = old(s).mmio_va_allocator.pool->0;
                    let vs = pool.start.inner.value as int;
                    &&& (n > pool.spec_num_pages() ==> r == Err::<
                        crate::memory::Address<Virtual>,
                        &'static str,
                    >("not enough free pages") && *final(s) == *old(s))
                    &&& n <= pool.spec_num_pages() ==> ({
                        &&& final(s).mmio_va_allocator.pool is Some
                        &&& final(s).mmio_va_allocator.pool->0.start.inner.value == vs + n * g
                        &&& final(s).mmio_va_allocator.pool->0.end_exclusive
                            == pool.end_exclusive
                        &&& (ps + n * g > crate::bsp::PHYS_ADDR_SPACE_END_EXCLUSIVE as int ==> r
                            == Err::<crate::memory::Address<Virtual>, &'static str>(
                            "tried to map outside of physical address space",
                        ) && final(s).tables == old(s).tables && final(s).mapping_record
                            == record)
                        &&& ps + n * g <= crate::bsp::PHYS_ADDR_SPACE_END_EXCLUSIVE as int
                            ==> (forall|k: int|
                            0 <= k < n ==> old(s).tables.spec_map_target_ok(
                                vs + #[trigger] (k * crate::bsp::KERNEL_GRANULE_SIZE),
                            )) ==> ({
                            &&& r is Ok
                            &&& r->Ok_0.value == vs + offset
                            &&& old(s).tables.spec_slots_written(
                                final(s).tables,
                                vs,
                                ps,
                                spec_mmio_attributes(),
                                n,
                            )
                            &&& crate::memory::mmu::mapping_record::MappingRecord::spec_added(
                                record,
                                final(s).mapping_record,
                                name,
                                vs,
                                ps,
                                n,
                                spec_mmio_attributes(),
                            )
                        })
                        &&& (ps + n * g <= crate::bsp::PHYS_ADDR_SPACE_END_EXCLUSIVE as int
                            && !(forall|k: int|
                            0 <= k < n ==> old(s).tables.spec_map_target_ok(
                                vs + #[trigger] (k * crate::bsp::KERNEL_GRANULE_SIZE),
                            ))) ==> ({
                            &&& r is Err
                            &&& final(s).mapping_record == record
                            &&& exists|k: int|
                                old(s).tables.spec_map_stopped_at(
                                    final(s).tables,
                                    vs,
                                    ps,
                                    spec_mmio_attributes(),
                                    n,
                                    k,
                                )
                        })
                    })
                })
            }
        }),
{
    let phys_region = mmio_descriptor.phys_region();
    let offset_into_start_page = mmio_descriptor.start_addr().offset_into_page();
    proof {
        crate::memory::mmu::types::lemma_region_arith(phys_region);
    }
    match crate::memory::mmu::mapping_record::kernel_find_and_insert_mmio_duplicate(
        &mut s.mapping_record,
        mmio_descriptor,
        name,
    ) {
        Some(addr) => Ok(crate::memory::Address::new(addr.as_usize() + offset_into_start_page)),
        None => {
            if s.mapping_record.inner.len() >= s.mapping_record.capacity {
                return Err("mapping record full");
            }
            let num_pages = phys_region.num_pages();
            // A well-formed descriptor always covers at least one page;
            // kept as a defensive check.
            if num_pages == 0 {
                return Err("requested 0 pages");
            }
            let virt_region = s.mmio_va_allocator.allocate(num_pages)?;
            proof {
                crate::memory::mmu::types::lemma_region_arith(virt_region);
            }
            let attr = types::AttributeFields {
                mem_attributes: types::MemAttributes::Device,
                access_permissions: types::AccessPermissions::ReadWrite,
                execute_never: true,
            };
            let ghost pre = *s;
            match s.tables.map_at(&virt_region, &phys_region, &attr) {
                Ok(()) => {},
                Err(msg) => {
                    proof {
                        let g = crate::bsp::KERNEL_GRANULE_SIZE as int;
                        let vs = virt_region.start.inner.value as int;
                        let psi = phys_region.start.inner.value as int;
                        let ni = num_pages as int;
                        assert(attr == spec_mmio_attributes());
                        if phys_region.end_exclusive.inner.value
                            <= crate::bsp::PHYS_ADDR_SPACE_END_EXCLUSIVE {
                            let k = choose|k: int|
                                pre.tables.spec_map_stopped_at(s.tables, vs, psi, attr, ni, k);
                            assert(pre.tables.spec_map_stopped_at(
                                s.tables,
                                vs,
                                psi,
                                attr,
                                ni,
                                k,
                            ));
                            assert(!pre.tables.spec_map_target_ok(vs + k * g));
                        }
                    }
                    return Err(msg);
                },
            }
            match crate::memory::mmu::mapping_record::kernel_add(
                &mut s.mapping_record,
                name,
                &virt_region,
                &phys_region,
                &attr,
            ) {
                Ok(()) => {},
                Err(_) => {
                    // Unreachable: the ledger had room before allocation
                    // and neither the allocator nor the table touches it.
                    proof {
                        assert(false);
                    }
                },
            }
            Ok(crate::memory::Address::new(virt_region.start_addr().as_usize() + offset_into_start_page))
        },
    }
}

/// Render the kernel's memory map for diagnostics.
pub fn kernel_print_mappings(s: &MemorySubsystem) -> (r: Vec<String>)
    requires
        s.well_formed(),
    ensures
        crate::memory::mmu::mapping_record::spec_renders(s.mapping_record.inner@, r@),
{
    crate::memory::mmu::mapping_record::kernel_print(&s.mapping_record)
}

} // verus!
