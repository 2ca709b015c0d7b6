//! The auto-tiling decision table.
//!
//! A directional tile looks at its four orthogonal neighbors; each neighbor
//! that is absent or of a different tile type sets one bit of a 4-bit mask
//! (North = 1, East = 2, South = 4, West = 8). The mask is translated to a
//! texture offset through a fixed lookup table: the texture atlas fixes the
//! ordering, so the mapping is a table, not a formula.

use vstd::prelude::*;

verus! {

/// The texture offset the atlas assigns to each 4-bit neighbor mask.
/// Mask values above 15 cannot arise from four bits; they fall back to 0.
pub open spec fn spec_offset(mask: u8) -> u32 {
    if mask == 0 {
        0
    } else if mask == 15 {
        1
    } else if mask == 1 {
        2
    } else if mask == 2 {
        3
    } else if mask == 4 {
        4
    } else if mask == 8 {
        5
    } else if mask == 3 {
        6
    } else if mask == 6 {
        7
    } else if mask == 12 {
        8
    } else if mask == 9 {
        9
    } else if mask == 10 {
        10
    } else if mask == 5 {
        11
    } else if mask == 11 {
        12
    } else if mask == 7 {
        13
    } else if mask == 14 {
        14
    } else if mask == 13 {
        15
    } else {
        0
    }
}

/// Translate a neighbor-difference mask to its texture offset.
pub fn map_bitmask_to_offset(bitmask: u8) -> (offset: u32)
    ensures
        offset == spec_offset(bitmask),
{
    match bitmask {
        0 => 0,
        15 => 1,
        1 => 2,
        2 => 3,
        4 => 4,
        8 => 5,
        3 => 6,
        6 => 7,
        12 => 8,
        9 => 9,
        10 => 10,
        5 => 11,
        11 => 12,
        7 => 13,
        14 => 14,
        13 => 15,
        _ => 0,
    }
}

/// Law: on the 4-bit domain the offset table is injective — no two distinct
/// masks share an offset — and every offset lies in 0..=15.
pub proof fn lemma_offset_table_injective()
    ensures
        forall|a: u8, b: u8| a < 16 && b < 16 && a != b ==> spec_offset(a) != spec_offset(b),
        forall|m: u8| m < 16 ==> spec_offset(m) < 16,
{
}

} // verus!
