//! General-purpose helpers: alignment arithmetic, human-readable sizes and a
//! range-checked integer newtype.

use vstd::prelude::*;

verus! {

pub const KIB: usize = 1024;
pub const MIB: usize = 1024 * 1024;
pub const GIB: usize = 1024 * 1024 * 1024;

/// `value` is a multiple of `alignment`.
pub open spec fn spec_is_aligned(value: int, alignment: int) -> bool {
    value % alignment == 0
}

pub fn is_aligned(value: usize, alignment: usize) -> (r: bool)
    requires
        alignment >= 1,
    ensures
        r == spec_is_aligned(value as int, alignment as int),
{
    value % alignment == 0
}

/// The greatest multiple of `alignment` that is not greater than `value`.
pub open spec fn spec_align_down(value: int, alignment: int) -> int {
    value - value % alignment
}

pub fn align_down(value: usize, alignment: usize) -> (r: usize)
    requires
        alignment >= 1,
    ensures
        r == spec_align_down(value as int, alignment as int),
        r <= value,
        spec_is_aligned(r as int, alignment as int),
{
    let rem = value % alignment;
    proof {
        lemma_mod_split(value as int, alignment as int);
    }
    value - rem
}

/// Splitting off the remainder leaves a multiple of the divisor that is at
/// most the dividend.
proof fn lemma_mod_split(value: int, alignment: int)
    requires
        value >= 0,
        alignment >= 1,
    ensures
        0 <= value % alignment <= value,
        (value - value % alignment) % alignment == 0,
        value % alignment != 0 ==> (value + (alignment - value % alignment)) % alignment == 0,
{
    vstd::arithmetic::div_mod::lemma_fundamental_div_mod(value, alignment);
    vstd::arithmetic::div_mod::lemma_div_pos_is_pos(value, alignment);
    let q = value / alignment;
    vstd::arithmetic::mul::lemma_mul_nonnegative(alignment, q);
    vstd::arithmetic::div_mod::lemma_mod_multiples_basic(q, alignment);
    vstd::arithmetic::div_mod::lemma_mod_multiples_basic(q + 1, alignment);
    assert(q * alignment == alignment * q) by (nonlinear_arith);
    assert((q + 1) * alignment == alignment * q + alignment) by (nonlinear_arith);
}

/// The least multiple of `alignment` that is not less than `value`.
pub open spec fn spec_align_up(value: int, alignment: int) -> int {
    if value % alignment == 0 {
        value
    } else {
        value + (alignment - value % alignment)
    }
}

pub fn align_up(value: usize, alignment: usize) -> (r: usize)
    requires
        alignment >= 1,
        value + alignment - 1 <= usize::MAX,
    ensures
        r == spec_align_up(value as int, alignment as int),
        r >= value,
        spec_is_aligned(r as int, alignment as int),
{
    let rem = value % alignment;
    proof {
        lemma_mod_split(value as int, alignment as int);
    }
    if rem == 0 {
        value
    } else {
        value + (alignment - rem)
    }
}

/// `value` is a power of two.
pub open spec fn spec_is_power_of_two(value: int) -> bool
    decreases value,
{
    if value <= 0 {
        false
    } else if value == 1 {
        true
    } else {
        value % 2 == 0 && spec_is_power_of_two(value / 2)
    }
}

pub fn is_power_of_two(value: usize) -> (r: bool)
    ensures
        r == spec_is_power_of_two(value as int),
{
    if value == 0 {
        return false;
    }
    let mut v = value;
    while v > 1 && v % 2 == 0
        invariant
            v >= 1,
            spec_is_power_of_two(value as int) == spec_is_power_of_two(v as int),
        decreases v,
    {
        v = v / 2;
    }
    v == 1
}

/// Base-two logarithm, rounded down.
pub open spec fn spec_log2(value: int) -> int
    decreases value,
{
    if value <= 1 {
        0
    } else {
        1 + spec_log2(value / 2)
    }
}

pub proof fn lemma_log2_bounds(value: int)
    ensures
        0 <= spec_log2(value),
        value >= 1 ==> spec_log2(value) < value,
    decreases value,
{
    if value > 1 {
        lemma_log2_bounds(value / 2);
    }
}

/// Ceiling division, used for rendering sizes.
pub open spec fn spec_div_ceil(value: int, unit: int) -> int {
    value / unit + if value % unit == 0 {
        0int
    } else {
        1int
    }
}

/// Dividing by a unit greater than one yields zero below the unit and a
/// positive quotient smaller than the dividend above it.
proof fn lemma_unit_div_facts(size: int, unit: int)
    requires
        size >= 0,
        unit > 1,
    ensures
        size >= unit ==> 1 <= size / unit < size,
        size < unit ==> size / unit == 0,
{
    if size >= unit {
        vstd::arithmetic::div_mod::lemma_div_is_ordered(unit, size, unit);
        vstd::arithmetic::div_mod::lemma_div_by_self(unit);
        vstd::arithmetic::div_mod::lemma_div_is_strictly_smaller(size, unit);
    } else {
        vstd::arithmetic::div_mod::lemma_basic_div(size, unit);
    }
}

/// Convert a byte count to the largest unit that divides it at least once,
/// rounding up.
pub fn size_human_readable_ceil(size: usize) -> (r: (usize, &'static str))
    ensures
        size >= GIB ==> r.0 == spec_div_ceil(size as int, GIB as int) && r.1 == "GiB",
        MIB <= size < GIB ==> r.0 == spec_div_ceil(size as int, MIB as int) && r.1 == "MiB",
        KIB <= size < MIB ==> r.0 == spec_div_ceil(size as int, KIB as int) && r.1 == "KiB",
        size < KIB ==> r.0 == size && r.1 == "Byte",
{
    proof {
        lemma_unit_div_facts(size as int, GIB as int);
        lemma_unit_div_facts(size as int, MIB as int);
        lemma_unit_div_facts(size as int, KIB as int);
    }
    if size / GIB > 0 {
        (size / GIB + if size % GIB == 0 { 0 } else { 1 }, "GiB")
    } else if size / MIB > 0 {
        (size / MIB + if size % MIB == 0 { 0 } else { 1 }, "MiB")
    } else if size / KIB > 0 {
        (size / KIB + if size % KIB == 0 { 0 } else { 1 }, "KiB")
    } else {
        (size, "Byte")
    }
}

/// A `usize` whose value is statically bounded by `MAX_INCLUSIVE`.
#[derive(Copy, Clone, Debug, PartialEq, Eq)]
pub struct BoundedUsize<const MAX_INCLUSIVE: usize> {
    pub value: usize,
}

impl<const MAX_INCLUSIVE: usize> BoundedUsize<MAX_INCLUSIVE> {
    pub fn new(number: usize) -> (r: Self)
        requires
            number <= MAX_INCLUSIVE,
        ensures
            r.value == number,
            r.well_formed(),
    {
        BoundedUsize { value: number }
    }

    pub fn get(self) -> (r: usize)
        ensures
            r == self.value,
    {
        self.value
    }

    pub open spec fn well_formed(self) -> bool {
        self.value <= MAX_INCLUSIVE
    }
}

} // verus!
