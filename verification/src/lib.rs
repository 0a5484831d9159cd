//! Crafting-macro solver: a deterministic crafting simulator and a seeded
//! genetic search over bounded action sequences.
use vstd::prelude::*;

pub mod actions;
pub mod effects;
pub mod fitness;
pub mod genome;
pub mod laws;
pub mod level_table;
pub mod model;
pub mod rng;
pub mod simulator;

verus! {

/// Saturate an unbounded integer into the `i64` range.
pub open spec fn sat64(x: int) -> int {
    if x > i64::MAX as int {
        i64::MAX as int
    } else if x < i64::MIN as int {
        i64::MIN as int
    } else {
        x
    }
}

/// Saturating addition on `i64`, exactly `sat64` of the mathematical sum.
pub fn add_sat(a: i64, b: i64) -> (r: i64)
    ensures
        r as int == sat64(a as int + b as int),
{
    match a.checked_add(b) {
        Some(v) => v,
        None => {
            if b > 0 {
                i64::MAX
            } else {
                i64::MIN
            }
        },
    }
}

/// Saturating subtraction on `i64`, exactly `sat64` of the difference.
pub fn sub_sat(a: i64, b: i64) -> (r: i64)
    ensures
        r as int == sat64(a as int - b as int),
{
    match a.checked_sub(b) {
        Some(v) => v,
        None => {
            if b < 0 {
                i64::MAX
            } else {
                i64::MIN
            }
        },
    }
}

/// The smaller of two values.
pub fn min_i64(a: i64, b: i64) -> (r: i64)
    ensures
        r == if a < b {
            a
        } else {
            b
        },
{
    if a < b {
        a
    } else {
        b
    }
}

} // verus!
