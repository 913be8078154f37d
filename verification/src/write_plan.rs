use vstd::prelude::*;
use vstd::arithmetic::div_mod::{
    lemma_fundamental_div_mod, lemma_mod_decreases, lemma_mod_division_less_than_divisor,
    lemma_mod_multiples_basic, lemma_mod_self_0, lemma_small_mod,
};

verus! {

/// The largest multiple of `b` that is not above `x`.
pub open spec fn align_down(x: int, b: int) -> int {
    x - x % b
}

/// How many bytes lie between `x` and the next multiple of `b` (zero when
/// `x` is one already).
pub open spec fn padding_to_boundary(x: int, b: int) -> int {
    (b - x % b) % b
}

proof fn lemma_mod_facts(x: int, b: int)
    requires
        0 <= x,
        0 < b,
    ensures
        0 <= x % b < b,
        x % b <= x,
        x % b == 0 ==> padding_to_boundary(x, b) == 0,
        x % b != 0 ==> padding_to_boundary(x, b) == b - x % b,
{
    lemma_mod_division_less_than_divisor(x, b);
    lemma_mod_decreases(x as nat, b as nat);
    lemma_mod_self_0(b);
    if x % b != 0 {
        lemma_small_mod((b - x % b) as nat, b as nat);
    }
}

/// Where a sector-preserving write of `length` bytes at `offset` reads,
/// erases and writes, for sectors of `sector_size` bytes: the bytes
/// `[first_address, first_address + first_length)` before the data and
/// `[last_address, last_address + last_length)` after it are read back
/// first, so that the whole sectors can be erased and written again.
#[derive(Copy, Clone, Debug, PartialEq, Eq, Structural)]
pub struct WritePlan {
    pub first_address: u32,
    pub first_length: u32,
    pub last_address: u32,
    pub last_length: u32,
}

/// Computes the sectors around a write of `length` bytes at `offset`.
pub fn write_plan(offset: u32, length: u32, sector_size: u32) -> (plan: WritePlan)
    requires
        sector_size > 0,
        offset + length <= u32::MAX,
    ensures
        plan.first_address == align_down(offset as int, sector_size as int),
        plan.first_length == offset % sector_size,
        plan.last_address == offset + length,
        plan.last_length == padding_to_boundary(offset + length, sector_size as int),
{
    proof {
        lemma_mod_facts(offset as int, sector_size as int);
    }
    let first_length = offset % sector_size;
    let first_address = offset - first_length;
    let last_address = offset + length;
    let last_length = (sector_size - last_address % sector_size) % sector_size;
    WritePlan { first_address, first_length, last_address, last_length }
}

/// The region that a sector-preserving write touches starts on a sector
/// boundary at or below the data, ends on a sector boundary at or above the
/// data's end, and reaches less than a sector beyond the data on either side.
pub proof fn lemma_write_plan_aligned(offset: int, length: int, b: int)
    requires
        0 <= offset,
        0 <= length,
        0 < b,
    ensures
        align_down(offset, b) % b == 0,
        0 <= align_down(offset, b) <= offset,
        align_down(offset, b) + offset % b == offset,
        0 <= offset % b < b,
        0 <= padding_to_boundary(offset + length, b) < b,
        (offset + length + padding_to_boundary(offset + length, b)) % b == 0,
{
    let e = offset + length;
    lemma_mod_facts(offset, b);
    lemma_mod_facts(e, b);
    lemma_fundamental_div_mod(offset, b);
    lemma_mod_multiples_basic(offset / b, b);
    assert(align_down(offset, b) == (offset / b) * b) by (nonlinear_arith)
        requires
            offset == b * (offset / b) + offset % b,
    ;
    lemma_fundamental_div_mod(e, b);
    if e % b == 0 {
        assert(padding_to_boundary(e, b) == 0);
    } else {
        assert(padding_to_boundary(e, b) == b - e % b);
        lemma_mod_multiples_basic(e / b + 1, b);
        assert(e + padding_to_boundary(e, b) == (e / b + 1) * b) by (nonlinear_arith)
            requires
                e == b * (e / b) + e % b,
                padding_to_boundary(e, b) == b - e % b,
        ;
    }
}

/// No sector boundary lies strictly between the start of the touched region
/// and the data's offset: the region starts at the nearest boundary.
pub proof fn lemma_align_down_is_greatest(offset: int, a: int, b: int)
    requires
        0 <= offset,
        0 < b,
        0 <= a <= offset,
        a % b == 0,
    ensures
        a <= align_down(offset, b),
{
    lemma_fundamental_div_mod(offset, b);
    lemma_fundamental_div_mod(a, b);
    let q = offset / b;
    let k = a / b;
    assert(k <= q) by (nonlinear_arith)
        requires
            offset == b * q + offset % b,
            a == b * k,
            offset % b < b,
            a <= offset,
            0 < b,
    ;
    assert(b * k <= b * q) by (nonlinear_arith)
        requires
            k <= q,
            0 < b,
    ;
}

/// No sector boundary lies strictly between the data's end and the end of
/// the touched region: the region ends at the nearest boundary.
pub proof fn lemma_padding_is_least(end: int, z: int, b: int)
    requires
        0 <= end <= z,
        0 < b,
        z % b == 0,
    ensures
        end + padding_to_boundary(end, b) <= z,
{
    lemma_mod_facts(end, b);
    lemma_fundamental_div_mod(end, b);
    lemma_fundamental_div_mod(z, b);
    let q = end / b;
    let k = z / b;
    if end % b != 0 {
        assert(k >= q + 1) by (nonlinear_arith)
            requires
                end == b * q + end % b,
                z == b * k,
                0 < end % b < b,
                end <= z,
                0 < b,
        ;
        assert(b * k >= b * (q + 1)) by (nonlinear_arith)
            requires
                k >= q + 1,
                0 < b,
        ;
        assert(b * (q + 1) == b * q + b) by (nonlinear_arith);
    }
}

} // verus!
