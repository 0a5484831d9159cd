//! The fitness evaluator: fold a genome to its terminal state and score it.
use vstd::prelude::*;

use crate::genome::{calculate_final_state, spec_final_state, CrafterActions};
use crate::model::{min_int, spec_penalties, spec_violations, Synth};

verus! {

/// Division truncating toward zero (the sign behavior of the machine
/// division), for a positive divisor.
pub open spec fn tdiv(a: int, b: int) -> int {
    if a >= 0 {
        a / b
    } else {
        -((-a) / b)
    }
}

/// Fitness of a terminal state: the base score (capped quality, or the CP
/// and durability remainders in completion mode) minus the penalties, minus
/// one if Heart and Soul was spent; a finished craft that clears the
/// safety-margin quality target is scaled by `(step + 4) / step` to reward
/// shorter macros.
pub open spec fn spec_fitness(synth: Synth, genome: Seq<u8>) -> int {
    let m = spec_final_state(synth, genome);
    let v = spec_violations(m, synth);
    let pen = spec_penalties(m, synth, 10000);
    let base = if synth.solver_vars.solve_for_completion {
        m.cp_state * synth.solver_vars.remainder_cp_fitness_value as int + m.durability_state
            * synth.solver_vars.remainder_dur_fitness_value as int
    } else {
        min_int(m.quality_state, synth.recipe.max_quality as int)
    };
    let f1 = crate::sat64(
        base - pen - if m.heart_and_soul_used {
            1int
        } else {
            0int
        },
    );
    if v.progress_ok && m.quality_state * 100 >= synth.recipe.max_quality as int * (100
        + synth.recipe.safety_margin as int) && m.step >= 1 {
        crate::sat64(tdiv(f1 * (m.step + 4), m.step))
    } else {
        f1
    }
}

/// Two bounded factors have an `i128`-range product.
proof fn lemma_prod_i128(x: int, y: int)
    by (nonlinear_arith)
    requires
        -0x8000_0000_0000_0000 <= x <= 0x7fff_ffff_ffff_ffff,
        -0x8000_0000_0000_0010 <= y <= 0x8000_0000_0000_0010,
    ensures
        -0x7000_0000_0000_0000_0000_0000_0000_0000 <= x * y
            <= 0x7000_0000_0000_0000_0000_0000_0000_0000,
        (x >= 0 && y >= 0) ==> x * y >= 0,
{
}

/// An `i64`-range factor and an `i32`-range factor have a product far
/// inside the `i128` range.
proof fn lemma_prod_small(x: int, y: int)
    by (nonlinear_arith)
    requires
        -0x8000_0000_0000_0000 <= x <= 0x7fff_ffff_ffff_ffff,
        -0x8000_0000 <= y <= 0x7fff_ffff,
    ensures
        -0x1_0000_0000_0000_0000_0000_0000 <= x * y <= 0x1_0000_0000_0000_0000_0000_0000,
{
}

/// Saturate an `i128` into the `i64` range.
fn clamp_i128(x: i128) -> (r: i64)
    ensures
        r as int == crate::sat64(x as int),
{
    if x > i64::MAX as i128 {
        i64::MAX
    } else if x < i64::MIN as i128 {
        i64::MIN
    } else {
        x as i64
    }
}

impl Synth {
    /// Score a genome.
    pub fn fitness_of(&self, actions: &CrafterActions) -> (r: i64)
        requires
            self.wf(),
            actions@.len() < 0x7fff_ffff_ffff_ffff,
        ensures
            r as int == spec_fitness(*self, actions@),
    {
        let state = calculate_final_state(actions, self);
        let violations = state.check_violations(self);
        let penalties = state.calculate_penalties(self, 10000);
        let base: i128 = if self.solver_vars.solve_for_completion {
            proof {
                lemma_prod_small(
                    state.cp_state as int,
                    self.solver_vars.remainder_cp_fitness_value as int,
                );
                lemma_prod_small(
                    state.durability_state as int,
                    self.solver_vars.remainder_dur_fitness_value as int,
                );
            }
            state.cp_state as i128 * self.solver_vars.remainder_cp_fitness_value as i128
                + state.durability_state as i128
                * self.solver_vars.remainder_dur_fitness_value as i128
        } else {
            if state.quality_state < self.recipe.max_quality as i64 {
                state.quality_state as i128
            } else {
                self.recipe.max_quality as i128
            }
        };
        let hs: i128 = if state.heart_and_soul_used {
            1
        } else {
            0
        };
        let f1: i64 = clamp_i128(base - penalties as i128 - hs);
        proof {
            lemma_prod_i128(state.quality_state as int, 100);
            lemma_prod_i128(
                self.recipe.max_quality as int,
                100 + self.recipe.safety_margin as int,
            );
        }
        let cleared = violations.progress_ok && state.quality_state as i128 * 100
            >= self.recipe.max_quality as i128 * (100 + self.recipe.safety_margin as i128)
            && state.step >= 1;
        if cleared {
            proof {
                lemma_prod_i128(f1 as int, state.step as int + 4);
            }
            let num: i128 = f1 as i128 * (state.step as i128 + 4);
            let den: i128 = state.step as i128;
            let scaled: i128 = if num >= 0 {
                num / den
            } else {
                -((-num) / den)
            };
            proof {
                assert(scaled as int == tdiv(f1 as int * (state.step as int + 4), state.step as int));
            }
            clamp_i128(scaled)
        } else {
            f1
        }
    }

    /// Arithmetic mean of a set of fitness values, truncated toward zero.
    pub fn average(&self, a: &Vec<i64>) -> (r: i64)
        requires
            a@.len() >= 1,
            a@.len() <= 0x1_0000_0000,
        ensures
            r as int == crate::sat64(tdiv(spec_sum(a@), a@.len() as int)),
    {
        let mut sum: i128 = 0;
        let mut i: usize = 0;
        proof {
            assert(a@.take(0) =~= Seq::<i64>::empty());
        }
        while i < a.len()
            invariant
                i <= a@.len(),
                a@.len() <= 0x1_0000_0000,
                sum as int == spec_sum(a@.take(i as int)),
                -(i as int) * 0x8000_0000_0000_0000 <= sum as int <= (i as int)
                    * 0x7fff_ffff_ffff_ffff,
            decreases a@.len() - i,
        {
            proof {
                assert(a@.take(i + 1 as int).drop_last() =~= a@.take(i as int));
                assert(a@.take(i + 1 as int).last() == a@[i as int]);
            }
            sum = sum + a[i] as i128;
            i += 1;
        }
        proof {
            assert(a@.take(i as int) =~= a@);
        }
        let den: i128 = a.len() as i128;
        let q: i128 = if sum >= 0 {
            sum / den
        } else {
            -((-sum) / den)
        };
        clamp_i128(q)
    }

    /// An upper bound for the fitness of any genome on this instance.
    pub fn highest_possible_fitness(&self) -> (r: i64)
        ensures
            r as int == self.recipe.difficulty as int + self.recipe.max_quality as int * 5,
    {
        self.recipe.difficulty as i64 + self.recipe.max_quality as i64 * 5
    }

    /// A lower bound for the fitness of any genome on this instance.
    pub fn lowest_possible_fitness(&self) -> (r: i64)
        ensures
            r == i64::MIN,
    {
        i64::MIN
    }
}

/// Sum of a sequence of fitness values.
pub open spec fn spec_sum(s: Seq<i64>) -> int
    decreases s.len(),
{
    if s.len() == 0 {
        0
    } else {
        spec_sum(s.drop_last()) + s.last()
    }
}

} // verus!
