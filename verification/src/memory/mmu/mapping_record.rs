//! The kernel's mapping ledger: a diagnostic record of every mapping ever
//! installed, kept sorted by virtual start address, used to render the
//! memory map and to deduplicate repeated MMIO mapping requests.
//!
//! The ledger has fixed capacity: a bounded number of entries, chosen at
//! construction, and a bounded owner list per entry. Entry exhaustion is
//! reported to the caller as an error; a full owner list costs only the
//! extra name, and the contracts state exactly when that happens.

use vstd::prelude::*;

verus! {

use crate::memory::mmu::types::{
    AccessPermissions,
    AttributeFields,
    MMIODescriptor,
    MemAttributes,
    MemoryRegion,
};
use crate::memory::{Address, Physical, Virtual};

/// Owners that can accumulate on one ledger entry through MMIO
/// deduplication.
pub const MAX_ENTRY_USERS: usize = 5;

/// One independently requested mapping and the names of its owners.
#[derive(Debug, Clone, PartialEq, Eq)]
pub struct MappingRecordEntry {
    pub users: Vec<&'static str>,
    pub phys_start_addr: Address<Physical>,
    pub virt_start_addr: Address<Virtual>,
    pub num_pages: usize,
    pub attribute_fields: AttributeFields,
}

/// The ledger itself: entries sorted by virtual start address, at most
/// `capacity` of them.
#[derive(Debug, Clone, PartialEq, Eq)]
pub struct MappingRecord {
    pub inner: Vec<MappingRecordEntry>,
    pub capacity: usize,
}

impl MappingRecordEntry {
    pub open spec fn well_formed(self) -> bool {
        &&& 1 <= self.users@.len() <= MAX_ENTRY_USERS
        &&& 1 <= self.num_pages
        &&& self.virt_start_addr.value + self.num_pages * crate::bsp::KERNEL_GRANULE_SIZE
            <= usize::MAX
        &&& self.phys_start_addr.value + self.num_pages * crate::bsp::KERNEL_GRANULE_SIZE
            <= usize::MAX
    }

    pub fn new(
        name: &'static str,
        virt_region: &MemoryRegion<Virtual>,
        phys_region: &MemoryRegion<Physical>,
        attr: &AttributeFields,
    ) -> (r: Self)
        requires
            virt_region.well_formed(),
            phys_region.well_formed(),
            virt_region.spec_num_pages() == phys_region.spec_num_pages(),
            phys_region.spec_num_pages() >= 1,
        ensures
            r.users@ =~= seq![name],
            r.phys_start_addr == phys_region.start.inner,
            r.virt_start_addr == virt_region.start.inner,
            r.num_pages == phys_region.spec_num_pages(),
            r.attribute_fields == *attr,
            r.well_formed(),
    {
        proof {
            crate::memory::mmu::types::lemma_region_arith(*virt_region);
            crate::memory::mmu::types::lemma_region_arith(*phys_region);
        }
        let mut users: Vec<&'static str> = Vec::new();
        users.push(name);
        MappingRecordEntry {
            users,
            phys_start_addr: phys_region.start_addr(),
            virt_start_addr: virt_region.start_addr(),
            num_pages: phys_region.num_pages(),
            attribute_fields: *attr,
        }
    }

    /// Append another owner name; a full owner list is reported, and the
    /// name dropped, rather than grown past its bound.
    pub fn add_user(&mut self, user: &'static str) -> (r: Result<(), &'static str>)
        ensures
            old(self).users@.len() < MAX_ENTRY_USERS ==> r is Ok && final(self).users@ == old(
                self,
            ).users@.push(user),
            old(self).users@.len() >= MAX_ENTRY_USERS ==> r == Err::<(), &'static str>(
                "owner list of mapping record entry is full",
            ) && *final(self) == *old(self),
            final(self).phys_start_addr == old(self).phys_start_addr,
            final(self).virt_start_addr == old(self).virt_start_addr,
            final(self).num_pages == old(self).num_pages,
            final(self).attribute_fields == old(self).attribute_fields,
            old(self).well_formed() ==> final(self).well_formed(),
    {
        if self.users.len() >= MAX_ENTRY_USERS {
            return Err("owner list of mapping record entry is full");
        }
        self.users.push(user);
        Ok(())
    }
}

/// The entry records a device-class mapping of exactly this physical
/// window: the condition under which an MMIO request is a duplicate.
pub open spec fn spec_is_mmio_duplicate(
    entry: MappingRecordEntry,
    phys_start: int,
    num_pages: int,
) -> bool {
    &&& entry.attribute_fields.mem_attributes == MemAttributes::Device
    &&& entry.phys_start_addr.value == phys_start
    &&& entry.num_pages == num_pages
}

/// Entries are sorted by virtual start address.
pub open spec fn spec_sorted_by_virt(s: Seq<MappingRecordEntry>) -> bool {
    forall|i: int, j: int|
        0 <= i < j < s.len() ==> #[trigger] s[i].virt_start_addr.value
            <= #[trigger] s[j].virt_start_addr.value
}

/// Where a new entry with virtual start address `v` belongs in `s`: after
/// every entry whose virtual start address is not greater.
pub open spec fn spec_insert_position(s: Seq<MappingRecordEntry>, v: int) -> int
    decreases s.len(),
{
    if s.len() == 0 {
        0
    } else if s[0].virt_start_addr.value <= v {
        1 + spec_insert_position(s.subrange(1, s.len() as int), v)
    } else {
        0
    }
}

pub proof fn lemma_insert_position_props(s: Seq<MappingRecordEntry>, v: int)
    requires
        spec_sorted_by_virt(s),
    ensures
        0 <= spec_insert_position(s, v) <= s.len(),
        forall|j: int|
            0 <= j < spec_insert_position(s, v) ==> #[trigger] s[j].virt_start_addr.value <= v,
        forall|j: int|
            spec_insert_position(s, v) <= j < s.len() ==> #[trigger] s[j].virt_start_addr.value
                > v,
    decreases s.len(),
{
    if s.len() > 0 {
        let tail = s.subrange(1, s.len() as int);
        assert(forall|j: int| 0 <= j < tail.len() ==> #[trigger] tail[j] == s[j + 1]);
        assert(spec_sorted_by_virt(tail));
        lemma_insert_position_props(tail, v);
        let pos = spec_insert_position(s, v);
        if s[0].virt_start_addr.value <= v {
            let tail_pos = spec_insert_position(tail, v);
            assert(pos == 1 + tail_pos);
            assert forall|j: int| 0 <= j < pos implies #[trigger] s[j].virt_start_addr.value
                <= v by {
                if j > 0 {
                    assert(tail[j - 1].virt_start_addr.value <= v);
                }
            };
            assert forall|j: int| pos <= j < s.len() implies #[trigger] s[j].virt_start_addr.value
                > v by {
                assert(tail[j - 1].virt_start_addr.value > v);
            };
        } else {
            assert forall|j: int| 0 <= j < s.len() implies #[trigger] s[j].virt_start_addr.value
                > v by {
                if j > 0 {
                    assert(s[0].virt_start_addr.value <= s[j].virt_start_addr.value);
                }
            };
        }
    }
}

impl MappingRecord {
    pub open spec fn well_formed(self) -> bool {
        &&& spec_sorted_by_virt(self.inner@)
        &&& self.inner@.len() <= self.capacity
        &&& forall|i: int| 0 <= i < self.inner@.len() ==> (#[trigger] self.inner@[i]).well_formed()
    }

    /// An empty ledger with room for `capacity` entries.
    pub fn new(capacity: usize) -> (r: Self)
        ensures
            r.inner@.len() == 0,
            r.capacity == capacity,
            r.well_formed(),
    {
        MappingRecord { inner: Vec::new(), capacity }
    }

    /// The index of the first device-class entry recording exactly this
    /// physical window, if any.
    fn find_duplicate(&self, phys_region: &MemoryRegion<Physical>) -> (r: Option<usize>)
        requires
            self.well_formed(),
            phys_region.well_formed(),
        ensures
            ({
                let phys_start = phys_region.start.inner.value as int;
                let num_pages = phys_region.spec_num_pages();
                &&& r is Some ==> r->0 < self.inner@.len() && spec_is_mmio_duplicate(
                    self.inner@[r->0 as int],
                    phys_start,
                    num_pages,
                ) && (forall|j: int|
                    0 <= j < r->0 ==> !spec_is_mmio_duplicate(
                        #[trigger] self.inner@[j],
                        phys_start,
                        num_pages,
                    ))
                &&& r is None ==> forall|j: int|
                    0 <= j < self.inner@.len() ==> !spec_is_mmio_duplicate(
                        #[trigger] self.inner@[j],
                        phys_start,
                        num_pages,
                    )
            }),
    {
        let phys_start = phys_region.start_addr().as_usize();
        let num_pages = phys_region.num_pages();
        let mut i: usize = 0;
        while i < self.inner.len()
            invariant
                self.well_formed(),
                phys_region.well_formed(),
                i <= self.inner@.len(),
                phys_start == phys_region.start.inner.value,
                num_pages == phys_region.spec_num_pages(),
                forall|j: int|
                    0 <= j < i ==> !spec_is_mmio_duplicate(
                        #[trigger] self.inner@[j],
                        phys_start as int,
                        num_pages as int,
                    ),
            decreases self.inner@.len() - i,
        {
            let entry = &self.inner[i];
            let is_device = match entry.attribute_fields.mem_attributes {
                MemAttributes::Device => true,
                MemAttributes::CacheableDRAM => false,
            };
            if is_device && entry.phys_start_addr.as_usize() == phys_start && entry.num_pages
                == num_pages {
                return Some(i);
            }
            i = i + 1;
        }
        None
    }

    /// `post` is `pre` with one entry for this request inserted at its
    /// sorted position, owned by `name` alone.
    pub open spec fn spec_added(
        pre: MappingRecord,
        post: MappingRecord,
        name: &'static str,
        virt_start: int,
        phys_start: int,
        num_pages: int,
        attr: AttributeFields,
    ) -> bool {
        let idx = spec_insert_position(pre.inner@, virt_start);
        &&& post.capacity == pre.capacity
        &&& post.inner@.len() == pre.inner@.len() + 1
        &&& (forall|j: int| 0 <= j < idx ==> #[trigger] post.inner@[j] == pre.inner@[j])
        &&& (forall|j: int| idx <= j < pre.inner@.len() ==> #[trigger] post.inner@[j + 1] == pre.inner@[j])
        &&& post.inner@[idx].users@ =~= seq![name]
        &&& post.inner@[idx].phys_start_addr.value == phys_start
        &&& post.inner@[idx].virt_start_addr.value == virt_start
        &&& post.inner@[idx].num_pages == num_pages
        &&& post.inner@[idx].attribute_fields == attr
    }

    /// Record one new mapping, keeping the ledger sorted by virtual start
    /// address. A full ledger reports a capacity error and is unchanged.
    pub fn add(
        &mut self,
        name: &'static str,
        virt_region: &MemoryRegion<Virtual>,
        phys_region: &MemoryRegion<Physical>,
        attr: &AttributeFields,
    ) -> (r: Result<(), &'static str>)
        requires
            old(self).well_formed(),
            virt_region.well_formed(),
            phys_region.well_formed(),
            virt_region.spec_num_pages() == phys_region.spec_num_pages(),
            phys_region.spec_num_pages() >= 1,
        ensures
            final(self).well_formed(),
            r is Ok <==> old(self).inner@.len() < old(self).capacity,
            r is Err ==> r == Err::<(), &'static str>("mapping record full") && *final(self)
                == *old(self),
            r is Ok ==> Self::spec_added(
                *old(self),
                *final(self),
                name,
                virt_region.start.inner.value as int,
                phys_region.start.inner.value as int,
                phys_region.spec_num_pages(),
                *attr,
            ),
    {
        if self.inner.len() >= self.capacity {
            return Err("mapping record full");
        }
        let entry = MappingRecordEntry::new(name, virt_region, phys_region, attr);
        let v = entry.virt_start_addr.as_usize();
        proof {
            lemma_insert_position_props(self.inner@, v as int);
        }
        let mut idx: usize = 0;
        while idx < self.inner.len() && self.inner[idx].virt_start_addr.value <= v
            invariant
                self.well_formed(),
                idx <= self.inner@.len(),
                forall|j: int| 0 <= j < idx ==> #[trigger] self.inner@[j].virt_start_addr.value <= v,
            decreases self.inner@.len() - idx,
        {
            idx = idx + 1;
        }
        proof {
            let pos = spec_insert_position(self.inner@, v as int);
            if idx < pos {
                assert(self.inner@[idx as int].virt_start_addr.value <= v);
                assert(false);
            }
            if pos < idx {
                assert(self.inner@[pos].virt_start_addr.value > v);
                assert(self.inner@[pos].virt_start_addr.value <= v);
                assert(false);
            }
        }
        self.inner.insert(idx, entry);
        Ok(())
    }
}

/// The ruled separator between rendered ledger lines.
pub const SEPARATOR_LINE: &'static str = "    -------------------------------------------------------------------------------------------------------------------------------------------";

/// The column headers of the memory-map dump, centered over their
/// columns.
pub const HEADER_LINE: &'static str = "                      Virtual                                   Physical               Size       Attr                    Entity               ";

/// Lines that rendering `s` produces after the three header lines: one
/// line per entry, one per extra owner, one separator after each entry.
pub open spec fn spec_line_count(s: Seq<MappingRecordEntry>) -> int
    decreases s.len(),
{
    if s.len() == 0 {
        0
    } else {
        1 + s[0].users@.len() + spec_line_count(s.subrange(1, s.len() as int))
    }
}

pub proof fn lemma_line_count_push(s: Seq<MappingRecordEntry>, e: MappingRecordEntry)
    ensures
        spec_line_count(s.push(e)) == spec_line_count(s) + 1 + e.users@.len(),
    decreases s.len(),
{
    if s.len() == 0 {
        assert(s.push(e)[0] == e);
        assert(s.push(e).subrange(1, s.push(e).len() as int) =~= Seq::<
            MappingRecordEntry,
        >::empty());
        assert(spec_line_count(s.push(e)) == 1 + e.users@.len() + spec_line_count(
            Seq::<MappingRecordEntry>::empty(),
        ));
    } else {
        assert(s.push(e)[0] == s[0]);
        assert(s.push(e).subrange(1, s.push(e).len() as int) =~= s.subrange(
            1,
            s.len() as int,
        ).push(e));
        lemma_line_count_push(s.subrange(1, s.len() as int), e);
        assert(spec_line_count(s.push(e)) == 1 + s[0].users@.len() + spec_line_count(
            s.subrange(1, s.len() as int).push(e),
        ));
    }
}

pub proof fn lemma_line_count_nonneg(s: Seq<MappingRecordEntry>)
    ensures
        spec_line_count(s) >= 0,
    decreases s.len(),
{
    if s.len() > 0 {
        lemma_line_count_nonneg(s.subrange(1, s.len() as int));
    }
}

/// A longer prefix renders at least as many lines.
pub proof fn lemma_line_count_monotone(s: Seq<MappingRecordEntry>, a: int, b: int)
    requires
        0 <= a <= b <= s.len(),
    ensures
        spec_line_count(s.subrange(0, a)) <= spec_line_count(s.subrange(0, b)),
    decreases b - a,
{
    if a < b {
        lemma_line_count_monotone(s, a, b - 1);
        assert(s.subrange(0, b) =~= s.subrange(0, b - 1).push(s[b - 1]));
        lemma_line_count_push(s.subrange(0, b - 1), s[b - 1]);
    }
}

/// The line that rendering one ledger entry produces: a function of the
/// shown values alone.
pub uninterp spec fn spec_entry_line(
    virt_start: int,
    virt_end_inclusive: int,
    phys_start: int,
    phys_end_inclusive: int,
    size: int,
    unit: Seq<char>,
    attr: Seq<char>,
    acc_p: Seq<char>,
    xn: Seq<char>,
    user: Seq<char>,
) -> Seq<char>;

/// The continuation line naming one extra owner: a function of the name
/// alone.
pub uninterp spec fn spec_user_line(user: Seq<char>) -> Seq<char>;

/// Relies on alloc's `format!` to render one ledger entry as one line of
/// the memory-map dump.
#[verifier::external_body]
fn render_entry_line(
    virt_start: usize,
    virt_end_inclusive: usize,
    phys_start: usize,
    phys_end_inclusive: usize,
    size: usize,
    unit: &'static str,
    attr: &'static str,
    acc_p: &'static str,
    xn: &'static str,
    user: &'static str,
) -> (r: String)
    ensures
        r@ == spec_entry_line(
            virt_start as int,
            virt_end_inclusive as int,
            phys_start as int,
            phys_end_inclusive as int,
            size as int,
            unit@,
            attr@,
            acc_p@,
            xn@,
            user@,
        ),
{
    format!(
        "    {:#011x}..{:#011x} --> {:#011x}..{:#011x} | {:>3} {} | {:<3} {} {:<2} | {}",
        virt_start,
        virt_end_inclusive,
        phys_start,
        phys_end_inclusive,
        size,
        unit,
        attr,
        acc_p,
        xn,
        user,
    )
}

/// Relies on alloc's `format!` to render the continuation line naming one
/// extra owner of an entry.
#[verifier::external_body]
fn render_user_line(user: &'static str) -> (r: String)
    ensures
        r@ == spec_user_line(user@),
{
    format!(
        "                                                                                                            | {}",
        user,
    )
}

/// The numeric part of a human-readable size: the byte count divided,
/// rounding up, by the largest unit that divides it at least once.
pub open spec fn spec_size_value(size: int) -> int {
    if size >= crate::common::GIB {
        crate::common::spec_div_ceil(size, crate::common::GIB as int)
    } else if size >= crate::common::MIB {
        crate::common::spec_div_ceil(size, crate::common::MIB as int)
    } else if size >= crate::common::KIB {
        crate::common::spec_div_ceil(size, crate::common::KIB as int)
    } else {
        size
    }
}

/// The unit of a human-readable size.
pub open spec fn spec_size_unit(size: int) -> Seq<char> {
    if size >= crate::common::GIB {
        "GiB"@
    } else if size >= crate::common::MIB {
        "MiB"@
    } else if size >= crate::common::KIB {
        "KiB"@
    } else {
        "Byte"@
    }
}

/// The memory-class abbreviation shown in the dump.
pub open spec fn spec_mem_attr_abbreviation(m: MemAttributes) -> Seq<char> {
    match m {
        MemAttributes::CacheableDRAM => "C"@,
        MemAttributes::Device => "Dev"@,
    }
}

/// The access-permission abbreviation shown in the dump.
pub open spec fn spec_access_abbreviation(a: AccessPermissions) -> Seq<char> {
    match a {
        AccessPermissions::ReadOnly => "RO"@,
        AccessPermissions::ReadWrite => "RW"@,
    }
}

/// The execute-never abbreviation shown in the dump.
pub open spec fn spec_execute_abbreviation(execute_never: bool) -> Seq<char> {
    if execute_never {
        "XN"@
    } else {
        "X"@
    }
}

/// The dump line that entry `e` renders to: its virtual and physical
/// ranges, human-readable size, attribute abbreviations and first owner.
pub open spec fn spec_entry_line_of(e: MappingRecordEntry) -> Seq<char> {
    let size = e.num_pages as int * crate::bsp::KERNEL_GRANULE_SIZE as int;
    spec_entry_line(
        e.virt_start_addr.value as int,
        e.virt_start_addr.value + size - 1,
        e.phys_start_addr.value as int,
        e.phys_start_addr.value + size - 1,
        spec_size_value(size),
        spec_size_unit(size),
        spec_mem_attr_abbreviation(e.attribute_fields.mem_attributes),
        spec_access_abbreviation(e.attribute_fields.access_permissions),
        spec_execute_abbreviation(e.attribute_fields.execute_never),
        e.users@[0]@,
    )
}

/// `lines`, from index `base` on, holds the block that entry `e` renders
/// to: its entry line, one continuation line per extra owner, and the
/// closing separator.
pub open spec fn spec_entry_lines_at(lines: Seq<String>, base: int, e: MappingRecordEntry) -> bool {
    &&& lines[base]@ == spec_entry_line_of(e)
    &&& (forall|k: int|
        1 <= k < e.users@.len() ==> (#[trigger] lines[base + k])@ == spec_user_line(
            e.users@[k]@,
        ))
    &&& lines[base + e.users@.len()]@ == SEPARATOR_LINE@
}

/// `lines` is the rendering of `entries`: two separators around the
/// header, then, entry by entry in index order, each entry's block at
/// its position.
pub open spec fn spec_renders(entries: Seq<MappingRecordEntry>, lines: Seq<String>) -> bool {
    &&& lines.len() == 3 + spec_line_count(entries)
    &&& lines[0]@ == SEPARATOR_LINE@
    &&& lines[1]@ == HEADER_LINE@
    &&& lines[2]@ == SEPARATOR_LINE@
    &&& (forall|i: int|
        0 <= i < entries.len() ==> spec_entry_lines_at(
            lines,
            3 + spec_line_count(entries.subrange(0, i)),
            #[trigger] entries[i],
        ))
}

impl MappingRecord {
    /// Render the ledger: two separators around the column headers, then,
    /// for each entry in ascending virtual-address order, its line with
    /// virtual and physical ranges, human-readable size, attribute
    /// abbreviations and first owner, one continuation line per extra
    /// owner, and a closing separator.
    pub fn print(&self) -> (r: Vec<String>)
        requires
            self.well_formed(),
        ensures
            spec_renders(self.inner@, r@),
    {
        let mut lines: Vec<String> = Vec::new();
        lines.push(String::from_str(SEPARATOR_LINE));
        lines.push(String::from_str(HEADER_LINE));
        lines.push(String::from_str(SEPARATOR_LINE));
        let mut i: usize = 0;
        proof {
            assert(self.inner@.subrange(0, 0) =~= Seq::<MappingRecordEntry>::empty());
        }
        while i < self.inner.len()
            invariant
                self.well_formed(),
                i <= self.inner@.len(),
                lines@.len() == 3 + spec_line_count(self.inner@.subrange(0, i as int)),
                lines@[0]@ == SEPARATOR_LINE@,
                lines@[1]@ == HEADER_LINE@,
                lines@[2]@ == SEPARATOR_LINE@,
                forall|j: int|
                    0 <= j < i ==> spec_entry_lines_at(
                        lines@,
                        3 + spec_line_count(self.inner@.subrange(0, j)),
                        #[trigger] self.inner@[j],
                    ),
            decreases self.inner@.len() - i,
        {
            let ghost lines_start = lines@;
            let ghost base = lines@.len() as int;
            let entry = &self.inner[i];
            proof {
                assert(self.inner@[i as int].well_formed());
                lemma_line_count_nonneg(self.inner@.subrange(0, i as int));
                assert(entry.num_pages >= 1);
                vstd::arithmetic::mul::lemma_mul_inequality(
                    1,
                    entry.num_pages as int,
                    crate::bsp::KERNEL_GRANULE_SIZE as int,
                );
                assert(entry.num_pages * crate::bsp::KERNEL_GRANULE_SIZE
                    >= crate::bsp::KERNEL_GRANULE_SIZE);
                assert(entry.virt_start_addr.value + entry.num_pages
                    * crate::bsp::KERNEL_GRANULE_SIZE <= usize::MAX);
                assert(entry.phys_start_addr.value + entry.num_pages
                    * crate::bsp::KERNEL_GRANULE_SIZE <= usize::MAX);
            }
            let size = entry.num_pages * crate::bsp::KERNEL_GRANULE_SIZE;
            let virt_start = entry.virt_start_addr.as_usize();
            let virt_end_inclusive = virt_start + (size - 1);
            let phys_start = entry.phys_start_addr.as_usize();
            let phys_end_inclusive = phys_start + (size - 1);
            let (size_value, unit) = crate::common::size_human_readable_ceil(size);
            let attr = match entry.attribute_fields.mem_attributes {
                MemAttributes::CacheableDRAM => "C",
                MemAttributes::Device => "Dev",
            };
            let acc_p = match entry.attribute_fields.access_permissions {
                AccessPermissions::ReadOnly => "RO",
                AccessPermissions::ReadWrite => "RW",
            };
            let xn = if entry.attribute_fields.execute_never {
                "XN"
            } else {
                "X"
            };
            let entry_line = render_entry_line(
                virt_start,
                virt_end_inclusive,
                phys_start,
                phys_end_inclusive,
                size_value,
                unit,
                attr,
                acc_p,
                xn,
                entry.users[0],
            );
            lines.push(entry_line);
            proof {
                assert(lines@[base] == entry_line);
                assert(spec_size_value(size as int) == size_value as int);
                assert(spec_size_unit(size as int) == unit@);
                assert(spec_mem_attr_abbreviation(entry.attribute_fields.mem_attributes)
                    == attr@);
                assert(spec_access_abbreviation(entry.attribute_fields.access_permissions)
                    == acc_p@);
                assert(spec_execute_abbreviation(entry.attribute_fields.execute_never) == xn@);
                assert(lines@[base]@ == spec_entry_line_of(self.inner@[i as int]));
            }
            let mut k: usize = 1;
            while k < entry.users.len()
                invariant
                    self.well_formed(),
                    i < self.inner@.len(),
                    entry == self.inner@[i as int],
                    entry.users@.len() >= 1,
                    1 <= k <= entry.users@.len(),
                    base == 3 + spec_line_count(self.inner@.subrange(0, i as int)),
                    base >= 3,
                    lines_start.len() == base,
                    lines@.len() == base + k,
                    forall|idx: int|
                        0 <= idx < base ==> #[trigger] lines@[idx] == lines_start[idx],
                    lines@[base]@ == spec_entry_line_of(self.inner@[i as int]),
                    forall|kk: int|
                        1 <= kk < k ==> (#[trigger] lines@[base + kk])@ == spec_user_line(
                            entry.users@[kk]@,
                        ),
                decreases entry.users@.len() - k,
            {
                let ghost prev = lines@;
                lines.push(render_user_line(entry.users[k]));
                proof {
                    assert(lines@[base] == prev[base]);
                    assert forall|kk: int| 1 <= kk < k + 1 implies (#[trigger] lines@[base
                        + kk])@ == spec_user_line(entry.users@[kk]@) by {
                        if kk < k as int {
                            assert(lines@[base + kk] == prev[base + kk]);
                        } else {
                            assert(lines@[base + kk] == lines@[lines@.len() - 1]);
                        }
                    };
                    assert forall|idx: int| 0 <= idx < base implies #[trigger] lines@[idx]
                        == lines_start[idx] by {
                        assert(lines@[idx] == prev[idx]);
                    };
                }
                k = k + 1;
            }
            let ghost before_separator = lines@;
            lines.push(String::from_str(SEPARATOR_LINE));
            proof {
                let e = self.inner@[i as int];
                assert(lines@[base] == before_separator[base]);
                assert(lines@[base + e.users@.len()] == lines@[lines@.len() - 1]);
                assert forall|kk: int| 1 <= kk < e.users@.len() implies (#[trigger] lines@[base
                    + kk])@ == spec_user_line(e.users@[kk]@) by {
                    assert(lines@[base + kk] == before_separator[base + kk]);
                };
                assert(self.inner@.subrange(0, i as int + 1) =~= self.inner@.subrange(
                    0,
                    i as int,
                ).push(e));
                lemma_line_count_push(self.inner@.subrange(0, i as int), e);
                assert forall|idx: int| 0 <= idx < base implies #[trigger] lines@[idx]
                    == lines_start[idx] by {};
                assert(spec_entry_lines_at(lines@, base, e));
                assert forall|j: int| 0 <= j < i + 1 implies spec_entry_lines_at(
                    lines@,
                    3 + spec_line_count(self.inner@.subrange(0, j)),
                    #[trigger] self.inner@[j],
                ) by {
                    if j < i as int {
                        let ej = self.inner@[j];
                        let bj = 3 + spec_line_count(self.inner@.subrange(0, j));
                        lemma_line_count_nonneg(self.inner@.subrange(0, j));
                        lemma_line_count_monotone(self.inner@, j + 1, i as int);
                        assert(self.inner@.subrange(0, j + 1) =~= self.inner@.subrange(
                            0,
                            j,
                        ).push(ej));
                        lemma_line_count_push(self.inner@.subrange(0, j), ej);
                        assert(bj + ej.users@.len() < base);
                        assert(spec_entry_lines_at(lines_start, bj, ej));
                        assert(lines@[bj] == lines_start[bj]);
                        assert forall|kk: int| 1 <= kk < ej.users@.len() implies (
                        #[trigger] lines@[bj + kk])@ == spec_user_line(ej.users@[kk]@) by {
                            assert((lines_start[bj + kk])@ == spec_user_line(ej.users@[kk]@));
                            assert(lines@[bj + kk] == lines_start[bj + kk]);
                        };
                        assert(lines@[bj + ej.users@.len()] == lines_start[bj
                            + ej.users@.len()]);
                    }
                };
            }
            i = i + 1;
        }
        proof {
            assert(self.inner@.subrange(0, self.inner@.len() as int) =~= self.inner@);
        }
        lines
    }
}

/// `post` is `pre` with `new_user` appended to the owner list of entry
/// `i` if there was room, and unchanged otherwise.
pub open spec fn spec_user_added(
    pre: MappingRecord,
    post: MappingRecord,
    i: int,
    new_user: &'static str,
) -> bool {
    &&& post.capacity == pre.capacity
    &&& post.inner@.len() == pre.inner@.len()
    &&& (forall|j: int| 0 <= j < pre.inner@.len() && j != i ==> #[trigger] post.inner@[j] == pre.inner@[j])
    &&& post.inner@[i].phys_start_addr == pre.inner@[i].phys_start_addr
    &&& post.inner@[i].virt_start_addr == pre.inner@[i].virt_start_addr
    &&& post.inner@[i].num_pages == pre.inner@[i].num_pages
    &&& post.inner@[i].attribute_fields == pre.inner@[i].attribute_fields
    &&& pre.inner@[i].users@.len() < MAX_ENTRY_USERS ==> post.inner@[i].users@ == pre.inner@[i].users@.push(new_user)
    &&& pre.inner@[i].users@.len() >= MAX_ENTRY_USERS ==> post.inner@[i].users@ == pre.inner@[i].users@
}

/// Record one new mapping in the kernel ledger.
pub fn kernel_add(
    record: &mut MappingRecord,
    name: &'static str,
    virt_region: &MemoryRegion<Virtual>,
    phys_region: &MemoryRegion<Physical>,
    attr: &AttributeFields,
) -> (r: Result<(), &'static str>)
    requires
        old(record).well_formed(),
        virt_region.well_formed(),
        phys_region.well_formed(),
        virt_region.spec_num_pages() == phys_region.spec_num_pages(),
        phys_region.spec_num_pages() >= 1,
    ensures
        final(record).well_formed(),
        r is Ok <==> old(record).inner@.len() < old(record).capacity,
        r is Err ==> r == Err::<(), &'static str>("mapping record full") && *final(record)
            == *old(record),
        r is Ok ==> MappingRecord::spec_added(
            *old(record),
            *final(record),
            name,
            virt_region.start.inner.value as int,
            phys_region.start.inner.value as int,
            phys_region.spec_num_pages(),
            *attr,
        ),
{
    record.add(name, virt_region, phys_region, attr)
}

/// Scan the ledger for a device-class entry recording exactly the
/// physical window of `mmio_descriptor`. On a hit, append `new_user` to
/// its owner list and hand back the entry's virtual start address, so the
/// caller reuses the existing mapping instead of installing an alias.
pub fn kernel_find_and_insert_mmio_duplicate(
    record: &mut MappingRecord,
    mmio_descriptor: &MMIODescriptor,
    new_user: &'static str,
) -> (r: Option<Address<Virtual>>)
    requires
        old(record).well_formed(),
        mmio_descriptor.well_formed(),
    ensures
        final(record).well_formed(),
        r is Some ==> r->0.value + crate::bsp::KERNEL_GRANULE_SIZE <= usize::MAX,
        ({
            let phys_start = crate::common::spec_align_down(
                mmio_descriptor.start_addr.value as int,
                crate::bsp::KERNEL_GRANULE_SIZE as int,
            );
            let phys_end = crate::common::spec_align_up(
                mmio_descriptor.end_addr_exclusive.value as int,
                crate::bsp::KERNEL_GRANULE_SIZE as int,
            );
            let num_pages = (phys_end - phys_start) / (crate::bsp::KERNEL_GRANULE_SIZE as int);
            &&& r is None ==> (forall|j: int|
                0 <= j < old(record).inner@.len() ==> !spec_is_mmio_duplicate(
                    #[trigger] old(record).inner@[j],
                    phys_start,
                    num_pages,
                )) && *final(record) == *old(record)
            &&& r is Some ==> exists|i: int|
                {
                    &&& 0 <= i < old(record).inner@.len()
                    &&& spec_is_mmio_duplicate(#[trigger] old(record).inner@[i], phys_start, num_pages)
                    &&& (forall|j: int|
                        0 <= j < i ==> !spec_is_mmio_duplicate(
                            #[trigger] old(record).inner@[j],
                            phys_start,
                            num_pages,
                        ))
                    &&& r == Some(old(record).inner@[i].virt_start_addr)
                    &&& spec_user_added(*old(record), *final(record), i, new_user)
                }
        }),
{
    let phys_region = mmio_descriptor.phys_region();
    proof {
        crate::memory::mmu::types::lemma_region_arith(phys_region);
    }
    match record.find_duplicate(&phys_region) {
        None => None,
        Some(i) => {
            let mut entry = record.inner.remove(i);
            let addr = entry.virt_start_addr;
            match entry.add_user(new_user) {
                Ok(()) => {},
                Err(_) => {
                    // The owner list is full: the new name is dropped.
                    // This costs only diagnostics; the caller still
                    // reuses the existing mapping.
                },
            }
            record.inner.insert(i, entry);
            Some(addr)
        },
    }
}

/// A device-class request whose physical window no ledger entry matched
/// before, once recorded, is found by every later lookup of the same
/// window: the first matching entry is exactly the one just inserted, so
/// the deduplication path returns the virtual start address that the
/// fresh mapping received. Together with the contract of
/// `kernel_find_and_insert_mmio_duplicate` this says that requesting the
/// same MMIO window twice yields the same virtual address both times.
pub proof fn lemma_second_mmio_request_reuses_address(
    pre: MappingRecord,
    post: MappingRecord,
    name: &'static str,
    virt_start: int,
    phys_start: int,
    num_pages: int,
    attr: AttributeFields,
)
    requires
        pre.well_formed(),
        attr.mem_attributes == MemAttributes::Device,
        forall|j: int|
            0 <= j < pre.inner@.len() ==> !spec_is_mmio_duplicate(
                #[trigger] pre.inner@[j],
                phys_start,
                num_pages,
            ),
        MappingRecord::spec_added(pre, post, name, virt_start, phys_start, num_pages, attr),
    ensures
        exists|i: int|
            0 <= i < post.inner@.len() && spec_is_mmio_duplicate(
                #[trigger] post.inner@[i],
                phys_start,
                num_pages,
            ),
        forall|i: int|
            (0 <= i < post.inner@.len() && spec_is_mmio_duplicate(
                #[trigger] post.inner@[i],
                phys_start,
                num_pages,
            ) && (forall|j: int|
                0 <= j < i ==> !spec_is_mmio_duplicate(post.inner@[j], phys_start, num_pages)))
                ==> post.inner@[i].virt_start_addr.value == virt_start,
{
    let idx = spec_insert_position(pre.inner@, virt_start);
    lemma_insert_position_props(pre.inner@, virt_start);
    assert(spec_is_mmio_duplicate(post.inner@[idx], phys_start, num_pages));
    assert forall|i: int|
        (0 <= i < post.inner@.len() && spec_is_mmio_duplicate(
            #[trigger] post.inner@[i],
            phys_start,
            num_pages,
        ) && (forall|j: int|
            0 <= j < i ==> !spec_is_mmio_duplicate(
                post.inner@[j],
                phys_start,
                num_pages,
            ))) implies post.inner@[i].virt_start_addr.value == virt_start by {
        if i < idx {
            assert(post.inner@[i] == pre.inner@[i]);
            assert(false);
        }
        if i > idx {
            assert(spec_is_mmio_duplicate(post.inner@[idx], phys_start, num_pages));
            assert(!spec_is_mmio_duplicate(post.inner@[idx], phys_start, num_pages));
            assert(false);
        }
    };
}

/// Render the kernel ledger for diagnostics.
pub fn kernel_print(record: &MappingRecord) -> (r: Vec<String>)
    requires
        record.well_formed(),
    ensures
        spec_renders(record.inner@, r@),
{
    record.print()
}

} // verus!
