//! The fixed lookup that maps a crafter level to the recipe-scale level used
//! in all difficulty comparisons. Levels up to 50 map to themselves; levels
//! 51 to 90 map through the table below; higher levels keep the last entry.
use vstd::prelude::*;

verus! {

/// Recipe-scale level for a crafter level, as a specification-level table.
pub open spec fn spec_level_table_lookup(level: u32) -> u32 {
    if level <= 50 {
        level
    } else if level == 51 {
        120
    } else if level == 52 {
        125
    } else if level == 53 {
        130
    } else if level == 54 {
        133
    } else if level == 55 {
        136
    } else if level == 56 {
        139
    } else if level == 57 {
        142
    } else if level == 58 {
        145
    } else if level == 59 {
        148
    } else if level == 60 {
        150
    } else if level == 61 {
        260
    } else if level == 62 {
        265
    } else if level == 63 {
        270
    } else if level == 64 {
        273
    } else if level == 65 {
        276
    } else if level == 66 {
        279
    } else if level == 67 {
        282
    } else if level == 68 {
        285
    } else if level == 69 {
        288
    } else if level == 70 {
        290
    } else if level == 71 {
        390
    } else if level == 72 {
        395
    } else if level == 73 {
        400
    } else if level == 74 {
        403
    } else if level == 75 {
        406
    } else if level == 76 {
        409
    } else if level == 77 {
        412
    } else if level == 78 {
        415
    } else if level == 79 {
        418
    } else if level == 80 {
        420
    } else if level == 81 {
        517
    } else if level == 82 {
        520
    } else if level == 83 {
        525
    } else if level == 84 {
        530
    } else if level == 85 {
        535
    } else if level == 86 {
        540
    } else if level == 87 {
        545
    } else if level == 88 {
        550
    } else if level == 89 {
        555
    } else {
        560
    }
}

/// Map a crafter level to its recipe-scale level.
pub fn level_table_lookup(level: u32) -> (r: u32)
    ensures
        r == spec_level_table_lookup(level),
{
    if level <= 50 {
        level
    } else if level == 51 {
        120
    } else if level == 52 {
        125
    } else if level == 53 {
        130
    } else if level == 54 {
        133
    } else if level == 55 {
        136
    } else if level == 56 {
        139
    } else if level == 57 {
        142
    } else if level == 58 {
        145
    } else if level == 59 {
        148
    } else if level == 60 {
        150
    } else if level == 61 {
        260
    } else if level == 62 {
        265
    } else if level == 63 {
        270
    } else if level == 64 {
        273
    } else if level == 65 {
        276
    } else if level == 66 {
        279
    } else if level == 67 {
        282
    } else if level == 68 {
        285
    } else if level == 69 {
        288
    } else if level == 70 {
        290
    } else if level == 71 {
        390
    } else if level == 72 {
        395
    } else if level == 73 {
        400
    } else if level == 74 {
        403
    } else if level == 75 {
        406
    } else if level == 76 {
        409
    } else if level == 77 {
        412
    } else if level == 78 {
        415
    } else if level == 79 {
        418
    } else if level == 80 {
        420
    } else if level == 81 {
        517
    } else if level == 82 {
        520
    } else if level == 83 {
        525
    } else if level == 84 {
        530
    } else if level == 85 {
        535
    } else if level == 86 {
        540
    } else if level == 87 {
        545
    } else if level == 88 {
        550
    } else if level == 89 {
        555
    } else {
        560
    }
}

} // verus!
