//! Ceiling-alignment arithmetic for buffer sizes and offsets.

use vstd::arithmetic::div_mod::{
    lemma_fundamental_div_mod, lemma_mod_bound, lemma_mod_multiples_basic,
};
use vstd::prelude::*;

verus! {

/// The smallest multiple of `alignment` that is greater than or equal to
/// `value`.
pub open spec fn spec_align_to(value: int, alignment: int) -> int
    recommends
        value >= 0,
        alignment > 0,
{
    if value % alignment == 0 {
        value
    } else {
        value + alignment - value % alignment
    }
}

/// Aligns a `value` to an `alignment`.
///
/// Returns the first number greater than or equal to `value` that is also a
/// multiple of `alignment`. If `value` is already a multiple of `alignment`,
/// `value` will be returned.
///
/// An `alignment` of zero is erroneous and is excluded by the precondition;
/// the result must also fit the value's type.
pub fn align_to(value: u64, alignment: u64) -> (r: u64)
    requires
        alignment > 0,
        spec_align_to(value as int, alignment as int) <= u64::MAX,
    ensures
        r == spec_align_to(value as int, alignment as int),
{
    let remainder = value % alignment;
    if remainder == 0 {
        value
    } else {
        value + (alignment - remainder)
    }
}

/// The aligned value is at least `value`, is an exact multiple of
/// `alignment`, and overshoots `value` by less than `alignment`.
pub proof fn lemma_align_to_bounds(value: int, alignment: int)
    requires
        value >= 0,
        alignment > 0,
    ensures
        spec_align_to(value, alignment) >= value,
        spec_align_to(value, alignment) % alignment == 0,
        spec_align_to(value, alignment) - value < alignment,
{
    lemma_mod_bound(value, alignment);
    if value % alignment != 0 {
        lemma_fundamental_div_mod(value, alignment);
        let q = value / alignment;
        assert(spec_align_to(value, alignment) == (q + 1) * alignment) by (nonlinear_arith)
            requires
                value == alignment * q + value % alignment,
                spec_align_to(value, alignment) == value + alignment - value % alignment,
        ;
        lemma_mod_multiples_basic(q + 1, alignment);
    }
}

/// Aligning is idempotent: aligning an already aligned value returns it
/// unchanged.
pub proof fn lemma_align_to_idempotent(value: int, alignment: int)
    requires
        value >= 0,
        alignment > 0,
    ensures
        spec_align_to(spec_align_to(value, alignment), alignment) == spec_align_to(
            value,
            alignment,
        ),
{
    lemma_align_to_bounds(value, alignment);
}

} // verus!
