//! The architecture-specific two-level translation table.
//!
//! A table owns `num_tables` top-level descriptors, each covering a 512 MiB
//! window through a co-located array of 8192 second-level page descriptors.
//! The layout it describes to the hardware is `[second-level arrays]
//! [first-level array]`, starting at `phys_start`, each array one granule
//! (64 KiB) long.

use vstd::prelude::*;

verus! {

use crate::bsp::{KERNEL_GRANULE_SIZE, PHYS_ADDR_SPACE_END_EXCLUSIVE};
use crate::common::spec_is_aligned;
use crate::memory::mmu::types::{
    AccessPermissions,
    AttributeFields,
    MemAttributes,
    MemoryRegion,
    PageAddress,
};
use crate::memory::{Address, Physical, Virtual};

/// Number of second-level page descriptors per top-level window.
pub const PAGES_PER_TABLE: usize = 8192;

/// Bytes covered by one top-level descriptor: 8192 pages of 64 KiB.
pub const LVL2_WINDOW_SIZE: usize = 512 * 1024 * 1024;

/// Physical addresses must fit the descriptors' 32-bit output-address
/// field, which holds bits 16..=47 of the address.
pub const MAX_DESCRIPTOR_OUTPUT_ADDR: u64 = 0x1_0000_0000_0000;

// Stage-1 page descriptor fields (VMSAv8-64, 64 KiB granule, level 3).
pub const PAGE_DESC_VALID: u64 = 1;

pub const PAGE_DESC_TYPE_PAGE: u64 = 0x2;

/// `AttrIndx` field (bits 2..=4): index into the memory-attribute table.
pub const PAGE_DESC_ATTRIDX_DEVICE: u64 = 0x0;

pub const PAGE_DESC_ATTRIDX_NORMAL: u64 = 0x4;

/// `AP` field (bits 6..=7): read-write at EL1 is `0b00`, read-only `0b10`.
pub const PAGE_DESC_AP_RW_EL1: u64 = 0x0;

pub const PAGE_DESC_AP_RO_EL1: u64 = 0x80;

/// `SH` field (bits 8..=9): outer shareable `0b10`, inner shareable `0b11`.
pub const PAGE_DESC_SH_OUTER_SHAREABLE: u64 = 0x200;

pub const PAGE_DESC_SH_INNER_SHAREABLE: u64 = 0x300;

/// `AF` (bit 10): access flag.
pub const PAGE_DESC_AF: u64 = 0x400;

/// `PXN` (bit 53): privileged execute-never.
pub const PAGE_DESC_PXN: u64 = 0x20_0000_0000_0000;

/// `UXN` (bit 54): unprivileged execute-never, always set while no
/// user space exists.
pub const PAGE_DESC_UXN: u64 = 0x40_0000_0000_0000;

// Stage-1 table descriptor fields.
pub const TABLE_DESC_VALID: u64 = 1;

pub const TABLE_DESC_TYPE_TABLE: u64 = 0x2;

/// A top-level descriptor pointing at a second-level array.
#[derive(Copy, Clone, Debug, PartialEq, Eq, Structural)]
pub struct TableDescriptor {
    pub value: u64,
}

/// A leaf descriptor mapping one 64 KiB virtual page to one physical page.
#[derive(Copy, Clone, Debug, PartialEq, Eq, Structural)]
pub struct PageDescriptor {
    pub value: u64,
}

/// The shareability, memory-attribute-index, access-permission and
/// execute-never bits encoding the given attributes.
pub open spec fn spec_attribute_bits(attr: AttributeFields) -> int {
    (match attr.mem_attributes {
        MemAttributes::CacheableDRAM => PAGE_DESC_SH_INNER_SHAREABLE + PAGE_DESC_ATTRIDX_NORMAL,
        MemAttributes::Device => PAGE_DESC_SH_OUTER_SHAREABLE + PAGE_DESC_ATTRIDX_DEVICE,
    }) + (match attr.access_permissions {
        AccessPermissions::ReadOnly => PAGE_DESC_AP_RO_EL1,
        AccessPermissions::ReadWrite => PAGE_DESC_AP_RW_EL1,
    }) + if attr.execute_never {
        PAGE_DESC_PXN as int
    } else {
        0
    }
}

/// The exact bit pattern of a valid page descriptor with the given output
/// address and attributes.
pub open spec fn spec_page_descriptor(phys_output_addr: int, attr: AttributeFields) -> int {
    phys_output_addr + PAGE_DESC_UXN + PAGE_DESC_AF + PAGE_DESC_TYPE_PAGE + PAGE_DESC_VALID
        + spec_attribute_bits(attr)
}

/// The exact bit pattern of a valid table descriptor pointing at
/// `phys_next_lvl_table_addr`.
pub open spec fn spec_table_descriptor(phys_next_lvl_table_addr: int) -> int {
    phys_next_lvl_table_addr + TABLE_DESC_TYPE_TABLE + TABLE_DESC_VALID
}

/// Bit 0 of any descriptor: it takes part in translation.
pub open spec fn spec_desc_is_valid(value: int) -> bool {
    value % 2 == 1
}

/// The output address held in bits 16..=47 of a page descriptor.
pub open spec fn spec_desc_output_addr(value: int) -> int {
    value % (MAX_DESCRIPTOR_OUTPUT_ADDR as int) - value % (KERNEL_GRANULE_SIZE as int)
}

/// The `AP` field of a page descriptor.
pub open spec fn spec_desc_ap_bits(value: int) -> int {
    (value / 0x40) % 4
}

/// The `AttrIndx` field of a page descriptor.
pub open spec fn spec_desc_attr_index(value: int) -> int {
    (value / 4) % 8
}

/// The `PXN` bit of a page descriptor.
pub open spec fn spec_desc_pxn(value: int) -> bool {
    (value / (PAGE_DESC_PXN as int)) % 2 == 1
}

/// Field extraction distributes over the three disjoint groups of bits a
/// page descriptor is assembled from: the page-aligned output address, the
/// low flag bits, and the execute-never bits above bit 47.
proof fn lemma_field_extraction(v: u64, phys: u64, low: u64, high: u64)
    by (bit_vector)
    requires
        v == phys + low + high,
        phys % 0x1_0000 == 0,
        phys < 0x1_0000_0000_0000,
        low < 0x1_0000,
        high % 0x1_0000_0000_0000 == 0,
        high <= 0x60_0000_0000_0000,
    ensures
        v % 0x1_0000_0000_0000 - v % 0x1_0000 == phys,
        (v / 0x40) % 4 == (low / 0x40) % 4,
        (v / 4) % 8 == (low / 4) % 8,
        v % 2 == low % 2,
        (v / 0x20_0000_0000_0000) % 2 == (high / 0x20_0000_0000_0000) % 2,
{
}

/// Decoding a freshly encoded page descriptor gives back the address and
/// attributes that went in.
pub proof fn lemma_page_descriptor_roundtrip(phys_output_addr: int, attr: AttributeFields)
    requires
        spec_is_aligned(phys_output_addr, KERNEL_GRANULE_SIZE as int),
        0 <= phys_output_addr < MAX_DESCRIPTOR_OUTPUT_ADDR,
    ensures
        spec_desc_is_valid(spec_page_descriptor(phys_output_addr, attr)),
        spec_desc_output_addr(spec_page_descriptor(phys_output_addr, attr)) == phys_output_addr,
        spec_desc_ap_bits(spec_page_descriptor(phys_output_addr, attr)) == (
        match attr.access_permissions {
            AccessPermissions::ReadOnly => 2int,
            AccessPermissions::ReadWrite => 0int,
        }),
        spec_desc_attr_index(spec_page_descriptor(phys_output_addr, attr)) == (
        match attr.mem_attributes {
            MemAttributes::CacheableDRAM => 1int,
            MemAttributes::Device => 0int,
        }),
        spec_desc_pxn(spec_page_descriptor(phys_output_addr, attr)) == attr.execute_never,
        0 <= spec_page_descriptor(phys_output_addr, attr) < 0x8000_0000_0000_0000,
{
    let phys = phys_output_addr as u64;
    let low = (PAGE_DESC_AF + PAGE_DESC_TYPE_PAGE + PAGE_DESC_VALID + (
    match attr.mem_attributes {
        MemAttributes::CacheableDRAM => PAGE_DESC_SH_INNER_SHAREABLE + PAGE_DESC_ATTRIDX_NORMAL,
        MemAttributes::Device => PAGE_DESC_SH_OUTER_SHAREABLE + PAGE_DESC_ATTRIDX_DEVICE,
    }) + (match attr.access_permissions {
        AccessPermissions::ReadOnly => PAGE_DESC_AP_RO_EL1,
        AccessPermissions::ReadWrite => PAGE_DESC_AP_RW_EL1,
    })) as u64;
    let high = (PAGE_DESC_UXN as int + if attr.execute_never {
        PAGE_DESC_PXN as int
    } else {
        0
    }) as u64;
    let v = (phys_output_addr + low + high) as u64;
    assert(phys % 0x1_0000 == 0) by {
        assert(phys_output_addr % (KERNEL_GRANULE_SIZE as int) == 0);
    };
    lemma_field_extraction(v, phys, low, high);
    assert(spec_page_descriptor(phys_output_addr, attr) == v);
}

impl TableDescriptor {
    pub fn new_zeroed() -> (r: Self)
        ensures
            r.value == 0,
    {
        TableDescriptor { value: 0 }
    }

    /// Encode a valid table descriptor for a 64 KiB-aligned second-level
    /// array address.
    pub fn from_next_lvl_table_addr(phys_next_lvl_table_addr: Address<Physical>) -> (r: Self)
        requires
            spec_is_aligned(phys_next_lvl_table_addr.value as int, KERNEL_GRANULE_SIZE as int),
            phys_next_lvl_table_addr.value < MAX_DESCRIPTOR_OUTPUT_ADDR,
        ensures
            r.value == spec_table_descriptor(phys_next_lvl_table_addr.value as int),
    {
        let value = phys_next_lvl_table_addr.as_usize() as u64 + TABLE_DESC_TYPE_TABLE
            + TABLE_DESC_VALID;
        TableDescriptor { value }
    }
}

impl PageDescriptor {
    pub fn new_zeroed() -> (r: Self)
        ensures
            r.value == 0,
    {
        PageDescriptor { value: 0 }
    }

    /// Encode a valid page descriptor from a physical output page and the
    /// portable attributes.
    pub fn from_output_addr(
        phys_output_addr: PageAddress<Physical>,
        attribute_fields: &AttributeFields,
    ) -> (r: Self)
        requires
            phys_output_addr.well_formed(),
            phys_output_addr.inner.value < MAX_DESCRIPTOR_OUTPUT_ADDR,
        ensures
            r.value == spec_page_descriptor(
                phys_output_addr.inner.value as int,
                *attribute_fields,
            ),
    {
        let shareability_and_index: u64 = match attribute_fields.mem_attributes {
            MemAttributes::CacheableDRAM => PAGE_DESC_SH_INNER_SHAREABLE
                + PAGE_DESC_ATTRIDX_NORMAL,
            MemAttributes::Device => PAGE_DESC_SH_OUTER_SHAREABLE + PAGE_DESC_ATTRIDX_DEVICE,
        };
        let access_permissions: u64 = match attribute_fields.access_permissions {
            AccessPermissions::ReadOnly => PAGE_DESC_AP_RO_EL1,
            AccessPermissions::ReadWrite => PAGE_DESC_AP_RW_EL1,
        };
        let execute_never: u64 = if attribute_fields.execute_never {
            PAGE_DESC_PXN
        } else {
            0
        };
        let value = phys_output_addr.into_inner().as_usize() as u64 + PAGE_DESC_UXN + PAGE_DESC_AF
            + PAGE_DESC_TYPE_PAGE + PAGE_DESC_VALID + shareability_and_index + access_permissions
            + execute_never;
        PageDescriptor { value }
    }

    /// The descriptor takes part in translation.
    pub fn is_valid(&self) -> (r: bool)
        ensures
            r == spec_desc_is_valid(self.value as int),
    {
        self.value % 2 == 1
    }

    /// The attribute fields can be decoded exactly when the descriptor is
    /// valid and its fields hold the encodings this subsystem writes.
    pub open spec fn spec_attributes_decodable(self) -> bool {
        &&& spec_desc_is_valid(self.value as int)
        &&& {
            let idx = spec_desc_attr_index(self.value as int);
            idx == 0 || idx == 1
        }
        &&& {
            let ap = spec_desc_ap_bits(self.value as int);
            ap == 0 || ap == 2
        }
    }

    /// The attributes a decodable descriptor encodes.
    pub open spec fn spec_decoded_attributes(self) -> AttributeFields {
        AttributeFields {
            mem_attributes: if spec_desc_attr_index(self.value as int) == 1 {
                MemAttributes::CacheableDRAM
            } else {
                MemAttributes::Device
            },
            access_permissions: if spec_desc_ap_bits(self.value as int) == 2 {
                AccessPermissions::ReadOnly
            } else {
                AccessPermissions::ReadWrite
            },
            execute_never: spec_desc_pxn(self.value as int),
        }
    }

    /// Recover the portable attributes from the descriptor's bits.
    pub fn try_attributes(&self) -> (r: Result<AttributeFields, &'static str>)
        ensures
            r is Ok <==> self.spec_attributes_decodable(),
            r is Ok ==> r->Ok_0 == self.spec_decoded_attributes(),
            !spec_desc_is_valid(self.value as int) ==> r == Err::<AttributeFields, &'static str>(
                "descriptor is invalid",
            ),
    {
        if self.value % 2 != 1 {
            return Err("descriptor is invalid");
        }
        let attr_index = (self.value / 4) % 8;
        let mem_attributes = if attr_index == 1 {
            MemAttributes::CacheableDRAM
        } else if attr_index == 0 {
            MemAttributes::Device
        } else {
            return Err("unsupported memory attributes");
        };
        let ap_bits = (self.value / 0x40) % 4;
        let access_permissions = if ap_bits == 2 {
            AccessPermissions::ReadOnly
        } else if ap_bits == 0 {
            AccessPermissions::ReadWrite
        } else {
            return Err("unsupported access permissions");
        };
        let execute_never = (self.value / PAGE_DESC_PXN) % 2 == 1;
        Ok(AttributeFields { mem_attributes, access_permissions, execute_never })
    }

    /// The physical output address held in the descriptor.
    pub fn output_addr(&self) -> (r: u64)
        ensures
            r as int == spec_desc_output_addr(self.value as int),
    {
        self.value % (MAX_DESCRIPTOR_OUTPUT_ADDR) - self.value % (KERNEL_GRANULE_SIZE as u64)
    }
}

/// The flat index of the second-level slot translating virtual address
/// `a`: its virtual page number.
pub open spec fn spec_slot_index(a: int) -> int {
    a / (KERNEL_GRANULE_SIZE as int)
}

/// The top-level index of the 512 MiB window holding virtual address `a`.
pub open spec fn spec_lvl2_index(a: int) -> int {
    a / (LVL2_WINDOW_SIZE as int)
}

/// The index within its second-level array of the slot translating
/// virtual address `a`.
pub open spec fn spec_lvl3_index(a: int) -> int {
    (a % (LVL2_WINDOW_SIZE as int)) / (KERNEL_GRANULE_SIZE as int)
}

/// The flat slot index splits into the two-level index pair, and lies
/// within an `n`-window table exactly when the top-level index does.
pub proof fn lemma_index_split(a: int, n: int)
    requires
        a >= 0,
        n >= 0,
    ensures
        spec_slot_index(a) == spec_lvl2_index(a) * (PAGES_PER_TABLE as int) + spec_lvl3_index(a),
        0 <= spec_lvl3_index(a) < PAGES_PER_TABLE,
        spec_lvl2_index(a) < n <==> spec_slot_index(a) < n * (PAGES_PER_TABLE as int),
        0 <= spec_lvl2_index(a),
        0 <= spec_slot_index(a),
{
    let g = KERNEL_GRANULE_SIZE as int;
    let p = PAGES_PER_TABLE as int;
    let s = spec_slot_index(a);
    vstd::arithmetic::div_mod::lemma_breakdown(a, g, p);
    assert(g * p == LVL2_WINDOW_SIZE as int);
    // a % (g * p) == g * ((a / g) % p) + a % g; divide both sides by g.
    vstd::arithmetic::div_mod::lemma_mod_division_less_than_divisor(a, g);
    vstd::arithmetic::div_mod::lemma_fundamental_div_mod_converse(
        a % (g * p),
        g,
        (a / g) % p,
        a % g,
    );
    assert(spec_lvl3_index(a) == s % p);
    vstd::arithmetic::div_mod::lemma_div_denominator(a, g, p);
    assert(spec_lvl2_index(a) == s / p);
    vstd::arithmetic::div_mod::lemma_fundamental_div_mod(s, p);
    vstd::arithmetic::div_mod::lemma_div_pos_is_pos(s, p);
    vstd::arithmetic::div_mod::lemma_div_pos_is_pos(a, g);
    vstd::arithmetic::div_mod::lemma_mod_division_less_than_divisor(s, p);
    assert(spec_lvl2_index(a) < n <==> s < n * p) by {
        if s / p < n {
            assert(s == p * (s / p) + s % p);
            vstd::arithmetic::mul::lemma_mul_inequality(s / p, n - 1, p);
            assert(p * (s / p) == (s / p) * p) by (nonlinear_arith);
            assert(s <= (n - 1) * p + (p - 1));
            assert((n - 1) * p == n * p - p) by (nonlinear_arith);
        }
        if s < n * p {
            vstd::arithmetic::div_mod::lemma_multiply_divide_lt(s, n, p);
        }
    };
}

/// Stepping whole pages from an aligned base advances the virtual page
/// number one by one.
pub proof fn lemma_aligned_page_step(start: int, j: int)
    requires
        start >= 0,
        j >= 0,
        spec_is_aligned(start, KERNEL_GRANULE_SIZE as int),
    ensures
        spec_slot_index(start + j * KERNEL_GRANULE_SIZE) == spec_slot_index(start) + j,
        spec_is_aligned(start + j * KERNEL_GRANULE_SIZE, KERNEL_GRANULE_SIZE as int),
{
    let g = KERNEL_GRANULE_SIZE as int;
    vstd::arithmetic::div_mod::lemma_fundamental_div_mod(start, g);
    let q = start / g;
    assert(start == g * q);
    assert(start + j * g == g * (q + j)) by (nonlinear_arith)
        requires
            start == g * q,
    ;
    vstd::arithmetic::div_mod::lemma_div_multiples_vanish(q + j, g);
    vstd::arithmetic::div_mod::lemma_mod_multiples_basic(q + j, g);
    assert(g * (q + j) == (q + j) * g) by (nonlinear_arith);
}

/// A fixed-size two-level translation table.
///
/// `lvl3` holds the second-level page descriptors of all windows as one
/// flat array in window order, so the slot for virtual page number `i`
/// is `lvl3[i]`. `lvl2` holds the top-level descriptors. `phys_start` is
/// the physical address the table starts at; the second-level array of
/// window `i` lives at `phys_start + i * 64 KiB` and the top-level array
/// behind all of them.
pub struct FixedSizeTranslationTable {
    pub lvl3: Vec<PageDescriptor>,
    pub lvl2: Vec<TableDescriptor>,
    pub phys_start: Address<Physical>,
    pub initialized: bool,
}

/// A valid slot holds a page-aligned output address below the platform's
/// physical address ceiling.
pub open spec fn spec_slot_shape_ok(value: int) -> bool {
    spec_desc_is_valid(value) ==> {
        &&& spec_is_aligned(spec_desc_output_addr(value), KERNEL_GRANULE_SIZE as int)
        &&& 0 <= spec_desc_output_addr(value) < PHYS_ADDR_SPACE_END_EXCLUSIVE
    }
}

impl FixedSizeTranslationTable {
    pub open spec fn spec_num_tables(self) -> int {
        self.lvl2@.len() as int
    }

    /// The raw bits of the second-level slot with virtual page number
    /// `index`.
    pub open spec fn spec_slot(self, index: int) -> int {
        self.lvl3@[index].value as int
    }

    /// The second-level slot with virtual page number `index`.
    pub open spec fn spec_slot_descriptor(self, index: int) -> PageDescriptor {
        self.lvl3@[index]
    }

    /// Virtual address `a` falls within the table's windows.
    pub open spec fn spec_addr_in_bounds(self, a: int) -> bool {
        0 <= a && spec_slot_index(a) < self.lvl3@.len()
    }

    pub open spec fn well_formed(self) -> bool {
        &&& 1 <= self.lvl2@.len() <= PAGES_PER_TABLE
        &&& self.lvl3@.len() == self.lvl2@.len() * PAGES_PER_TABLE
        &&& spec_is_aligned(self.phys_start.value as int, KERNEL_GRANULE_SIZE as int)
        &&& self.phys_start.value + (self.lvl2@.len() + 1) * KERNEL_GRANULE_SIZE
            <= MAX_DESCRIPTOR_OUTPUT_ADDR
        &&& self.phys_start.value + (self.lvl2@.len() + 1) * KERNEL_GRANULE_SIZE <= usize::MAX
        &&& forall|i: int|
            0 <= i < self.lvl3@.len() ==> spec_slot_shape_ok(#[trigger] self.lvl3@[i].value as int)
    }

    /// Physical start address of the second-level array of window `i`.
    pub open spec fn spec_lvl3_phys_addr(self, i: int) -> int {
        self.phys_start.value + i * KERNEL_GRANULE_SIZE
    }

    /// Physical start address of the top-level array: the value the
    /// hardware's table-base register takes.
    pub open spec fn spec_phys_base_addr(self) -> int {
        self.phys_start.value + self.spec_num_tables() * KERNEL_GRANULE_SIZE
    }

    /// Create a table of `num_tables` windows with every slot invalid,
    /// to live at physical address `phys_start`.
    pub fn new(num_tables: usize, phys_start: Address<Physical>) -> (r: Self)
        requires
            1 <= num_tables <= PAGES_PER_TABLE,
            spec_is_aligned(phys_start.value as int, KERNEL_GRANULE_SIZE as int),
            phys_start.value + (num_tables + 1) * KERNEL_GRANULE_SIZE
                <= MAX_DESCRIPTOR_OUTPUT_ADDR,
            phys_start.value + (num_tables + 1) * KERNEL_GRANULE_SIZE <= usize::MAX,
        ensures
            r.well_formed(),
            !r.initialized,
            r.phys_start == phys_start,
            r.lvl2@.len() == num_tables,
            forall|i: int| 0 <= i < r.lvl2@.len() ==> #[trigger] r.lvl2@[i].value == 0,
            forall|i: int| 0 <= i < r.lvl3@.len() ==> #[trigger] r.lvl3@[i].value == 0,
    {
        let mut lvl3: Vec<PageDescriptor> = Vec::new();
        let mut lvl2: Vec<TableDescriptor> = Vec::new();
        let num_slots = num_tables * PAGES_PER_TABLE;
        while lvl3.len() < num_slots
            invariant
                num_slots == num_tables * PAGES_PER_TABLE,
                num_tables <= PAGES_PER_TABLE,
                lvl3@.len() <= num_slots,
                forall|i: int| 0 <= i < lvl3@.len() ==> #[trigger] lvl3@[i].value == 0,
            decreases num_slots - lvl3.len(),
        {
            lvl3.push(PageDescriptor::new_zeroed());
        }
        while lvl2.len() < num_tables
            invariant
                num_tables <= PAGES_PER_TABLE,
                lvl2@.len() <= num_tables,
                forall|i: int| 0 <= i < lvl2@.len() ==> #[trigger] lvl2@[i].value == 0,
            decreases num_tables - lvl2.len(),
        {
            lvl2.push(TableDescriptor::new_zeroed());
        }
        FixedSizeTranslationTable { lvl3, lvl2, phys_start, initialized: false }
    }

    /// Wire every top-level descriptor to the physical base of its
    /// second-level array. Idempotent: a second call is a no-op.
    pub fn init(&mut self)
        requires
            old(self).well_formed(),
        ensures
            final(self).well_formed(),
            final(self).initialized,
            final(self).lvl3 == old(self).lvl3,
            final(self).phys_start == old(self).phys_start,
            final(self).lvl2@.len() == old(self).lvl2@.len(),
            old(self).initialized ==> *final(self) == *old(self),
            !old(self).initialized ==> forall|i: int|
                0 <= i < final(self).lvl2@.len() ==> #[trigger] final(self).lvl2@[i].value as int
                    == spec_table_descriptor(final(self).spec_lvl3_phys_addr(i)),
    {
        if self.initialized {
            return ;
        }
        let num_tables = self.lvl2.len();
        let mut i: usize = 0;
        while i < num_tables
            invariant
                self.well_formed(),
                num_tables == self.lvl2@.len(),
                i <= num_tables,
                self.lvl3 == old(self).lvl3,
                self.phys_start == old(self).phys_start,
                self.initialized == false,
                forall|k: int|
                    0 <= k < i ==> #[trigger] self.lvl2@[k].value as int == spec_table_descriptor(
                        self.spec_lvl3_phys_addr(k),
                    ),
            decreases num_tables - i,
        {
            proof {
                vstd::arithmetic::mul::lemma_mul_inequality(
                    i as int + 1,
                    self.lvl2@.len() + 1int,
                    KERNEL_GRANULE_SIZE as int,
                );
                vstd::arithmetic::div_mod::lemma_mod_multiples_vanish(
                    i as int,
                    self.phys_start.value as int,
                    KERNEL_GRANULE_SIZE as int,
                );
            }
            let phys_table_addr = Address::<Physical>::new(
                self.phys_start.as_usize() + i * KERNEL_GRANULE_SIZE,
            );
            let new_desc = TableDescriptor::from_next_lvl_table_addr(phys_table_addr);
            self.lvl2.set(i, new_desc);
            i = i + 1;
        }
        self.initialized = true;
    }

    /// The physical address handed to the hardware table-base register.
    pub fn phys_base_address(&self) -> (r: Address<Physical>)
        requires
            self.well_formed(),
        ensures
            r.value as int == self.spec_phys_base_addr(),
    {
        proof {
            vstd::arithmetic::mul::lemma_mul_inequality(
                self.lvl2@.len() as int,
                self.lvl2@.len() + 1int,
                KERNEL_GRANULE_SIZE as int,
            );
        }
        Address::new(self.phys_start.as_usize() + self.lvl2.len() * KERNEL_GRANULE_SIZE)
    }

    /// Split a virtual page address into its top-level and second-level
    /// indices, rejecting addresses beyond the table's windows.
    pub fn lvl2_lvl3_index_from_page_addr(&self, virt_page_addr: PageAddress<Virtual>) -> (r:
        Result<(usize, usize), &'static str>)
        requires
            self.well_formed(),
        ensures
            r is Ok <==> self.spec_addr_in_bounds(virt_page_addr.inner.value as int),
            r is Ok ==> r->Ok_0.0 == spec_lvl2_index(virt_page_addr.inner.value as int)
                && r->Ok_0.1 == spec_lvl3_index(virt_page_addr.inner.value as int),
            r is Err ==> r->Err_0 == "virtual page is out of bounds of translation table",
    {
        let addr = virt_page_addr.into_inner().as_usize();
        let lvl2_index = addr / LVL2_WINDOW_SIZE;
        let lvl3_index = (addr % LVL2_WINDOW_SIZE) / KERNEL_GRANULE_SIZE;
        proof {
            lemma_index_split(addr as int, self.lvl2@.len() as int);
        }
        if lvl2_index > self.lvl2.len() - 1 {
            return Err("virtual page is out of bounds of translation table");
        }
        Ok((lvl2_index, lvl3_index))
    }

    /// The raw bits of the slot that translates `virt_page_addr`.
    pub fn try_page_descriptor_value(&self, virt_page_addr: PageAddress<Virtual>) -> (r: Result<
        u64,
        &'static str,
    >)
        requires
            self.well_formed(),
        ensures
            r is Ok <==> self.spec_addr_in_bounds(virt_page_addr.inner.value as int),
            r is Ok ==> r->Ok_0 as int == self.spec_slot(
                spec_slot_index(virt_page_addr.inner.value as int),
            ),
            r is Err ==> r->Err_0 == "virtual page is out of bounds of translation table",
    {
        let (lvl2_index, lvl3_index) = self.lvl2_lvl3_index_from_page_addr(virt_page_addr)?;
        proof {
            lemma_index_split(virt_page_addr.inner.value as int, self.lvl2@.len() as int);
        }
        let flat_index = lvl2_index * PAGES_PER_TABLE + lvl3_index;
        Ok(self.lvl3[flat_index].value)
    }

    /// Virtual address `a` targets a slot that exists and is still
    /// invalid: the one condition under which a page may be mapped.
    pub open spec fn spec_map_target_ok(self, a: int) -> bool {
        self.spec_addr_in_bounds(a) && !spec_desc_is_valid(self.spec_slot(spec_slot_index(a)))
    }

    /// `post` is `self` with the first `count` page pairs of a mapping
    /// request written and nothing else touched.
    pub open spec fn spec_slots_written(
        self,
        post: Self,
        virt_start: int,
        phys_start: int,
        attr: AttributeFields,
        count: int,
    ) -> bool {
        &&& post.lvl3@.len() == self.lvl3@.len()
        &&& forall|j: int|
            0 <= j < count ==> #[trigger] post.spec_slot(spec_slot_index(virt_start) + j)
                == spec_page_descriptor(phys_start + j * KERNEL_GRANULE_SIZE, attr)
        &&& forall|idx: int|
            0 <= idx < self.lvl3@.len() && !(spec_slot_index(virt_start) <= idx < spec_slot_index(
                virt_start,
            ) + count) ==> #[trigger] post.lvl3@[idx] == self.lvl3@[idx]
    }

    /// A mapping request of `n` pages stopped at page `k`: the pages
    /// before `k` were written, page `k`'s slot was out of bounds or
    /// already valid, and nothing else changed.
    pub open spec fn spec_map_stopped_at(
        self,
        post: Self,
        virt_start: int,
        phys_start: int,
        attr: AttributeFields,
        n: int,
        k: int,
    ) -> bool {
        &&& 0 <= k < n
        &&& (forall|j: int|
            0 <= j < k ==> self.spec_map_target_ok(
                virt_start + #[trigger] (j * KERNEL_GRANULE_SIZE),
            ))
        &&& !self.spec_map_target_ok(virt_start + k * KERNEL_GRANULE_SIZE)
        &&& self.spec_slots_written(post, virt_start, phys_start, attr, k)
    }

    /// Install `new_desc` in the slot translating `virt_page_addr`,
    /// refusing out-of-bounds pages and slots that are already valid.
    pub fn set_page_descriptor_from_page_addr(
        &mut self,
        virt_page_addr: PageAddress<Virtual>,
        new_desc: &PageDescriptor,
    ) -> (r: Result<(), &'static str>)
        requires
            old(self).well_formed(),
            spec_slot_shape_ok(new_desc.value as int),
        ensures
            final(self).well_formed(),
            final(self).lvl2 == old(self).lvl2,
            final(self).phys_start == old(self).phys_start,
            final(self).initialized == old(self).initialized,
            final(self).lvl3@.len() == old(self).lvl3@.len(),
            !old(self).spec_addr_in_bounds(virt_page_addr.inner.value as int) ==> r == Err::<
                (),
                &'static str,
            >("virtual page is out of bounds of translation table") && *final(self) == *old(self),
            old(self).spec_addr_in_bounds(virt_page_addr.inner.value as int) && spec_desc_is_valid(
                old(self).spec_slot(spec_slot_index(virt_page_addr.inner.value as int)),
            ) ==> r == Err::<(), &'static str>("virtual page is already mapped") && *final(self)
                == *old(self),
            old(self).spec_map_target_ok(virt_page_addr.inner.value as int) ==> r is Ok
                && final(self).lvl3@ == old(self).lvl3@.update(
                spec_slot_index(virt_page_addr.inner.value as int),
                *new_desc,
            ),
    {
        let (lvl2_index, lvl3_index) = self.lvl2_lvl3_index_from_page_addr(virt_page_addr)?;
        proof {
            lemma_index_split(virt_page_addr.inner.value as int, self.lvl2@.len() as int);
        }
        let flat_index = lvl2_index * PAGES_PER_TABLE + lvl3_index;
        if self.lvl3[flat_index].is_valid() {
            return Err("virtual page is already mapped");
        }
        self.lvl3.set(flat_index, *new_desc);
        Ok(())
    }

    /// Map the pages of `virt_region` to those of `phys_region`, in
    /// order, with attributes `attr`.
    ///
    /// Regions of unequal page counts and physical regions beyond the
    /// platform's address-space ceiling are rejected before the table is
    /// touched. Each page pair is then installed in turn; the first page
    /// whose slot is out of bounds or already valid stops the operation
    /// with an error, and pages written before it stay written (there is
    /// no unmapping, hence no rollback).
    pub fn map_at(
        &mut self,
        virt_region: &MemoryRegion<Virtual>,
        phys_region: &MemoryRegion<Physical>,
        attr: &AttributeFields,
    ) -> (r: Result<(), &'static str>)
        requires
            old(self).well_formed(),
            old(self).initialized,
            virt_region.well_formed(),
            phys_region.well_formed(),
        ensures
            final(self).well_formed(),
            final(self).initialized,
            final(self).lvl2 == old(self).lvl2,
            final(self).phys_start == old(self).phys_start,
            final(self).lvl3@.len() == old(self).lvl3@.len(),
            virt_region.spec_num_pages() != phys_region.spec_num_pages() ==> r == Err::<
                (),
                &'static str,
            >("tried to map memory regions with unequal sizes") && *final(self) == *old(self),
            virt_region.spec_num_pages() == phys_region.spec_num_pages()
                && phys_region.end_exclusive.inner.value > PHYS_ADDR_SPACE_END_EXCLUSIVE ==> r
                == Err::<(), &'static str>("tried to map outside of physical address space")
                && *final(self) == *old(self),
            virt_region.spec_num_pages() == phys_region.spec_num_pages()
                && phys_region.end_exclusive.inner.value <= PHYS_ADDR_SPACE_END_EXCLUSIVE ==> {
                let n = virt_region.spec_num_pages();
                let vs = virt_region.start.inner.value as int;
                let ps = phys_region.start.inner.value as int;
                &&& (r is Ok <==> (forall|j: int|
                    0 <= j < n ==> old(self).spec_map_target_ok(
                        vs + #[trigger] (j * KERNEL_GRANULE_SIZE),
                    )))
                &&& r is Ok ==> old(self).spec_slots_written(*final(self), vs, ps, *attr, n)
                &&& r is Err ==> exists|k: int|
                    {
                        &&& old(self).spec_map_stopped_at(
                            *final(self),
                            vs,
                            ps,
                            *attr,
                            n,
                            k,
                        )
                        &&& !old(self).spec_addr_in_bounds(vs + #[trigger] (k
                            * KERNEL_GRANULE_SIZE)) ==> r == Err::<(), &'static str>(
                            "virtual page is out of bounds of translation table",
                        )
                        &&& old(self).spec_addr_in_bounds(vs + k * KERNEL_GRANULE_SIZE) ==> r
                            == Err::<(), &'static str>("virtual page is already mapped")
                    }
            },
    {
        let num_pages = virt_region.num_pages();
        if num_pages != phys_region.num_pages() {
            return Err("tried to map memory regions with unequal sizes");
        }
        if phys_region.end_exclusive_page_addr().into_inner().as_usize()
            > PHYS_ADDR_SPACE_END_EXCLUSIVE {
            return Err("tried to map outside of physical address space");
        }
        let vs = virt_region.start_page_addr().into_inner().as_usize();
        let ps = phys_region.start_page_addr().into_inner().as_usize();
        proof {
            crate::memory::mmu::types::lemma_region_arith(*virt_region);
            crate::memory::mmu::types::lemma_region_arith(*phys_region);
        }
        let ghost initial = *self;
        let mut j: usize = 0;
        while j < num_pages
            invariant
                initial == *old(self),
                self.well_formed(),
                self.initialized,
                self.lvl2 == initial.lvl2,
                self.phys_start == initial.phys_start,
                self.lvl3@.len() == initial.lvl3@.len(),
                j <= num_pages,
                num_pages == virt_region.spec_num_pages(),
                num_pages == phys_region.spec_num_pages(),
                vs == virt_region.start.inner.value,
                ps == phys_region.start.inner.value,
                virt_region.well_formed(),
                phys_region.well_formed(),
                vs + num_pages * KERNEL_GRANULE_SIZE == virt_region.end_exclusive.inner.value,
                ps + num_pages * KERNEL_GRANULE_SIZE == phys_region.end_exclusive.inner.value,
                phys_region.end_exclusive.inner.value <= PHYS_ADDR_SPACE_END_EXCLUSIVE,
                forall|jj: int|
                    0 <= jj < j ==> initial.spec_map_target_ok(
                        vs + #[trigger] (jj * KERNEL_GRANULE_SIZE),
                    ),
                initial.spec_slots_written(*self, vs as int, ps as int, *attr, j as int),
            decreases num_pages - j,
        {
            proof {
                vstd::arithmetic::mul::lemma_mul_inequality(
                    j as int + 1,
                    num_pages as int,
                    KERNEL_GRANULE_SIZE as int,
                );
                vstd::arithmetic::mul::lemma_mul_inequality(
                    j as int,
                    num_pages as int,
                    KERNEL_GRANULE_SIZE as int,
                );
                lemma_aligned_page_step(vs as int, j as int);
                lemma_aligned_page_step(ps as int, j as int);
            }
            let vaddr = vs + j * KERNEL_GRANULE_SIZE;
            let paddr = ps + j * KERNEL_GRANULE_SIZE;
            proof {
                lemma_page_descriptor_roundtrip(paddr as int, *attr);
            }
            let phys_page = PageAddress::new(Address::<Physical>::new(paddr));
            let virt_page = PageAddress::new(Address::<Virtual>::new(vaddr));
            let new_desc = PageDescriptor::from_output_addr(phys_page, attr);
            let ghost pre_step = *self;
            match self.set_page_descriptor_from_page_addr(virt_page, &new_desc) {
                Ok(()) => {
                    proof {
                        let g = KERNEL_GRANULE_SIZE as int;
                        let sj = spec_slot_index(vs as int);
                        let jd = j as int;
                        assert(pre_step.spec_map_target_ok(vaddr as int));
                        assert(spec_slot_index(vaddr as int) == sj + jd);
                        assert(initial.spec_map_target_ok(vs + jd * g));
                        assert(self.lvl3@ == pre_step.lvl3@.update(sj + jd, new_desc));
                        assert forall|jj: int| 0 <= jj < jd + 1 implies #[trigger] self.spec_slot(
                            sj + jj,
                        ) == spec_page_descriptor(ps + jj * g, *attr) by {
                            if jj < jd {
                                assert(pre_step.spec_slot(sj + jj) == spec_page_descriptor(
                                    ps + jj * g,
                                    *attr,
                                ));
                            } else {
                                assert(self.lvl3@[sj + jd] == new_desc);
                            }
                        };
                        assert(initial.spec_slots_written(*self, vs as int, ps as int, *attr, jd + 1));
                    }
                },
                Err(msg) => {
                    proof {
                        let k = j as int;
                        assert(spec_slot_index(vaddr as int) == spec_slot_index(vs as int) + k);
                        assert(!initial.spec_map_target_ok(vs + k * KERNEL_GRANULE_SIZE));
                        assert(initial.spec_slots_written(
                            *self,
                            vs as int,
                            ps as int,
                            *attr,
                            k,
                        ));
                        assert(initial.spec_map_stopped_at(
                            *self,
                            vs as int,
                            ps as int,
                            *attr,
                            num_pages as int,
                            k,
                        ));
                    }
                    return Err(msg);
                },
            }
            j = j + 1;
        }
        Ok(())
    }

    /// `r` is the exact outcome of looking up the physical page of
    /// `virt_page_addr` in this table.
    pub open spec fn spec_lookup_phys_page(
        self,
        virt_page_addr: PageAddress<Virtual>,
        r: Result<PageAddress<Physical>, &'static str>,
    ) -> bool {
        let a = virt_page_addr.inner.value as int;
        &&& (r is Ok <==> self.spec_addr_in_bounds(a) && spec_desc_is_valid(
            self.spec_slot(spec_slot_index(a)),
        ))
        &&& (r is Ok ==> r->Ok_0.inner.value as int == spec_desc_output_addr(
            self.spec_slot(spec_slot_index(a)),
        ) && r->Ok_0.well_formed())
        &&& (!self.spec_addr_in_bounds(a) ==> r == Err::<PageAddress<Physical>, &'static str>(
            "virtual page is out of bounds of translation table",
        ))
        &&& (self.spec_addr_in_bounds(a) && !spec_desc_is_valid(
            self.spec_slot(spec_slot_index(a)),
        ) ==> r == Err::<PageAddress<Physical>, &'static str>("virtual page is not mapped"))
    }

    /// `r` is the exact outcome of looking up the mapping attributes of
    /// `virt_page_addr` in this table.
    pub open spec fn spec_lookup_attributes(
        self,
        virt_page_addr: PageAddress<Virtual>,
        r: Result<AttributeFields, &'static str>,
    ) -> bool {
        let a = virt_page_addr.inner.value as int;
        &&& (r is Ok <==> self.spec_addr_in_bounds(a) && self.spec_slot_descriptor(
            spec_slot_index(a),
        ).spec_attributes_decodable())
        &&& (r is Ok ==> r->Ok_0 == self.spec_slot_descriptor(
            spec_slot_index(a),
        ).spec_decoded_attributes())
        &&& (!self.spec_addr_in_bounds(a) ==> r == Err::<AttributeFields, &'static str>(
            "virtual page is out of bounds of translation table",
        ))
        &&& (self.spec_addr_in_bounds(a) && !spec_desc_is_valid(
            self.spec_slot(spec_slot_index(a)),
        ) ==> r == Err::<AttributeFields, &'static str>("descriptor is invalid"))
    }

    /// Walk the table: the physical page that `virt_page_addr` translates
    /// to, if its slot is valid.
    pub fn try_virt_page_addr_to_phys_page_addr(&self, virt_page_addr: PageAddress<Virtual>) -> (r:
        Result<PageAddress<Physical>, &'static str>)
        requires
            self.well_formed(),
        ensures
            self.spec_lookup_phys_page(virt_page_addr, r),
    {
        let value = self.try_page_descriptor_value(virt_page_addr)?;
        let desc = PageDescriptor { value };
        if !desc.is_valid() {
            return Err("virtual page is not mapped");
        }
        let output = desc.output_addr();
        Ok(PageAddress { inner: Address { value: output as usize, marker: core::marker::PhantomData } })
    }

    /// The attributes of the mapping that covers `virt_page_addr`.
    pub fn try_page_attributes(&self, virt_page_addr: PageAddress<Virtual>) -> (r: Result<
        AttributeFields,
        &'static str,
    >)
        requires
            self.well_formed(),
        ensures
            self.spec_lookup_attributes(virt_page_addr, r),
    {
        let value = self.try_page_descriptor_value(virt_page_addr)?;
        let desc = PageDescriptor { value };
        proof {
            assert(desc.value as int == self.spec_slot(
                spec_slot_index(virt_page_addr.inner.value as int),
            ));
        }
        desc.try_attributes()
    }

    /// Translate a virtual address, preserving its offset within the page.
    pub fn try_virt_addr_to_phys_addr(&self, virt_addr: Address<Virtual>) -> (r: Result<
        Address<Physical>,
        &'static str,
    >)
        requires
            self.well_formed(),
        ensures
            ({
                let page = crate::common::spec_align_down(
                    virt_addr.value as int,
                    KERNEL_GRANULE_SIZE as int,
                );
                &&& (r is Ok <==> self.spec_addr_in_bounds(page) && spec_desc_is_valid(
                    self.spec_slot(spec_slot_index(page)),
                ))
                &&& r is Ok ==> r->Ok_0.value as int == spec_desc_output_addr(
                    self.spec_slot(spec_slot_index(page)),
                ) + virt_addr.value as int % KERNEL_GRANULE_SIZE as int
            }),
    {
        let virt_page = PageAddress::new(virt_addr.align_down_page());
        let phys_page = self.try_virt_page_addr_to_phys_page_addr(virt_page)?;
        proof {
            assert(spec_desc_output_addr(
                self.spec_slot(spec_slot_index(virt_page.inner.value as int)),
            ) < PHYS_ADDR_SPACE_END_EXCLUSIVE) by {
                assert(self.spec_addr_in_bounds(virt_page.inner.value as int));
                assert(spec_slot_shape_ok(
                    self.lvl3@[spec_slot_index(virt_page.inner.value as int)].value as int,
                ));
            };
        }
        let offset = virt_addr.offset_into_page();
        Ok(Address::new(phys_page.into_inner().as_usize() + offset))
    }
}

} // verus!
