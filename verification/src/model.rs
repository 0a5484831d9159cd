//! The problem instance (crafter, recipe, solver parameters) and the craft
//! state with its transition rules.
//!
//! All game quantities are integers. Fractional game data uses fixed scales:
//! percentages (`100` = 1.0) for probabilities and multipliers, and basis
//! points (`10000` = 1.0) for the condition expectation weights.
use vstd::prelude::*;

use crate::actions::{spec_details, Action, ActionType};
use crate::effects::{
    keys_unique, lemma_get_insert, lemma_get_remove, lemma_get_within, lemma_insert_values,
    lemma_remove_values, lemma_tick_values, lemma_unique_insert, lemma_unique_remove,
    lemma_unique_tick, lemma_values_from_get, seq_get, spec_insert, spec_remove, spec_tick,
    values_within, Effects,
};
use crate::level_table::{level_table_lookup, spec_level_table_lookup};

verus! {

/// The crafter's attributes. The ordered action list is the genome alphabet:
/// gene `g` with `1 <= g <= actions.len()` selects `actions[g - 1]`.
#[derive(Clone, Debug)]
pub struct Crafter {
    pub craftsmanship: u32,
    pub control: u32,
    pub craft_points: u32,
    pub level: u32,
    pub specialist: bool,
    pub actions: Vec<Action>,
}

/// The recipe's requirements and tuning constants. The dividers are positive
/// integers (`Synth::wf`).
#[derive(Clone, Debug)]
pub struct Recipe {
    pub base_level: u32,
    pub level: u32,
    pub difficulty: u32,
    pub durability: u32,
    pub safety_margin: u32,
    pub start_quality: u32,
    pub max_quality: u32,
    pub suggested_craftsmanship: u32,
    pub suggested_control: u32,
    pub progress_divider: u32,
    pub progress_modifier: Option<u32>,
    pub quality_divider: u32,
    pub quality_modifier: Option<u32>,
    pub stars: Option<u32>,
}

/// Parameters of the evolutionary search.
#[derive(Clone, Debug)]
pub struct SolverVars {
    pub solve_for_completion: bool,
    pub remainder_cp_fitness_value: i32,
    pub remainder_dur_fitness_value: i32,
    pub max_stagnation_counter: i32,
    pub population: i32,
    pub generations: i32,
}

impl Default for SolverVars {
    fn default() -> (r: Self)
        ensures
            !r.solve_for_completion,
            r.remainder_cp_fitness_value == 0,
            r.remainder_dur_fitness_value == 0,
            r.max_stagnation_counter == 0,
            r.population == 0,
            r.generations == 0,
    {
        SolverVars {
            solve_for_completion: false,
            remainder_cp_fitness_value: 0,
            remainder_dur_fitness_value: 0,
            max_stagnation_counter: 0,
            population: 0,
            generations: 0,
        }
    }
}

/// The immutable problem instance of one solver run.
#[derive(Clone, Debug)]
pub struct Synth {
    pub crafter: Crafter,
    pub recipe: Recipe,
    pub max_trick_uses: i32,
    pub reliability_percent: u32,
    pub max_length: u32,
    pub solver_vars: SolverVars,
}

impl Synth {
    /// The divider constants are used as divisors and must be positive.
    pub open spec fn wf(&self) -> bool {
        &&& self.recipe.progress_divider >= 1
        &&& self.recipe.quality_divider >= 1
    }
}

/// Per-step material condition. The solver collapses condition randomness to
/// an expectation, so states stay at `Normal`.
#[derive(Clone, Copy, Debug, PartialEq, Eq, Structural)]
pub enum Condition {
    Poor,
    Normal,
    Good,
    Excellent,
}

impl Default for Condition {
    fn default() -> (r: Self)
        ensures
            r == Condition::Normal,
    {
        Condition::Normal
    }
}

/// Which of the terminal checks a state passes.
#[derive(Clone, Copy, Debug, PartialEq, Eq, Structural)]
pub struct Violations {
    pub progress_ok: bool,
    pub cp_ok: bool,
    pub durability_ok: bool,
    pub trick_ok: bool,
    pub reliability_ok: bool,
}

impl Violations {
    /// All checks pass.
    pub fn is_okay(&self) -> (r: bool)
        ensures
            r == (self.durability_ok && self.cp_ok && self.reliability_ok && self.trick_ok
                && self.progress_ok),
    {
        self.durability_ok && self.cp_ok && self.reliability_ok && self.trick_ok
            && self.progress_ok
    }
}

// ---------------------------------------------------------------------------
// Base gains
// ---------------------------------------------------------------------------
/// Clamp a non-negative value into the `u32` range.
pub open spec fn clamp_u32(x: int) -> int {
    if x > u32::MAX as int {
        u32::MAX as int
    } else {
        x
    }
}

/// Base progress per efficiency point:
/// `floor(craftsmanship * 10 / progress_divider) + 2`, scaled by
/// `progress_modifier / 100` (one floor over the exact rational) when the
/// effective crafter level does not exceed the recipe level.
pub open spec fn spec_base_progress(synth: Synth, eff_crafter_level: u32, craftsmanship: u32) -> int {
    let c10 = craftsmanship as int * 10;
    let pd = synth.recipe.progress_divider as int;
    let raw = if eff_crafter_level as int <= synth.recipe.level as int {
        let pm = match synth.recipe.progress_modifier {
            Some(m) => m as int,
            None => 100,
        };
        ((c10 + 2 * pd) * pm) / (pd * 100)
    } else {
        (c10 + 2 * pd) / pd
    };
    clamp_u32(raw)
}

/// Base quality per efficiency point:
/// `floor(control * 10 / quality_divider) + 35`, scaled by
/// `quality_modifier / 100` under the same condition.
pub open spec fn spec_base_quality(synth: Synth, eff_crafter_level: u32, control: u32) -> int {
    let c10 = control as int * 10;
    let qd = synth.recipe.quality_divider as int;
    let raw = if eff_crafter_level as int <= synth.recipe.level as int {
        let qm = match synth.recipe.quality_modifier {
            Some(m) => m as int,
            None => 100,
        };
        ((c10 + 35 * qd) * qm) / (qd * 100)
    } else {
        (c10 + 35 * qd) / qd
    };
    clamp_u32(raw)
}

impl Synth {
    /// Effective crafter level on the recipe scale.
    pub fn get_effective_crafter_level(&self) -> (r: u32)
        ensures
            r == spec_level_table_lookup(self.crafter.level),
    {
        level_table_lookup(self.crafter.level)
    }

    pub fn calculate_base_progress_increase(&self, eff_crafter_level: u32, craftsmanship: u32) -> (r:
        u32)
        requires
            self.wf(),
        ensures
            r as int == spec_base_progress(*self, eff_crafter_level, craftsmanship),
    {
        let c10: u64 = craftsmanship as u64 * 10;
        let pd: u64 = self.recipe.progress_divider as u64;
        let raw: u128 = if eff_crafter_level <= self.recipe.level {
            let pm: u64 = match self.recipe.progress_modifier {
                Some(m) => m as u64,
                None => 100,
            };
            proof {
                assert((c10 + 2 * pd) as int * pm as int <= 0x10_0000_0000_0000_0000_0000)
                    by (nonlinear_arith)
                    requires
                        0 <= c10 + 2 * pd <= 0x10_0000_0000_0000,
                        0 <= pm <= 0x1_0000_0000,
                ;
            }
            ((c10 + 2 * pd) as u128 * pm as u128) / (pd as u128 * 100)
        } else {
            ((c10 + 2 * pd) / pd) as u128
        };
        if raw > u32::MAX as u128 {
            u32::MAX
        } else {
            raw as u32
        }
    }

    pub fn calculate_base_quality_increase(&self, eff_crafter_level: u32, control: u32) -> (r: u32)
        requires
            self.wf(),
        ensures
            r as int == spec_base_quality(*self, eff_crafter_level, control),
    {
        let c10: u64 = control as u64 * 10;
        let qd: u64 = self.recipe.quality_divider as u64;
        let raw: u128 = if eff_crafter_level <= self.recipe.level {
            let qm: u64 = match self.recipe.quality_modifier {
                Some(m) => m as u64,
                None => 100,
            };
            proof {
                assert((c10 + 35 * qd) as int * qm as int <= 0x100_0000_0000_0000_0000_0000)
                    by (nonlinear_arith)
                    requires
                        0 <= c10 + 35 * qd <= 0x100_0000_0000_0000,
                        0 <= qm <= 0x1_0000_0000,
                ;
            }
            ((c10 + 35 * qd) as u128 * qm as u128) / (qd as u128 * 100)
        } else {
            ((c10 + 35 * qd) / qd) as u128
        };
        if raw > u32::MAX as u128 {
            u32::MAX
        } else {
            raw as u32
        }
    }

    /// Both base gains for this instance's crafter.
    pub fn calculate_progress_and_quality_increase(&self) -> (r: (u32, u32))
        requires
            self.wf(),
        ensures
            r.0 as int == spec_base_progress(
                *self,
                spec_level_table_lookup(self.crafter.level),
                self.crafter.craftsmanship,
            ),
            r.1 as int == spec_base_quality(
                *self,
                spec_level_table_lookup(self.crafter.level),
                self.crafter.control,
            ),
    {
        let eff_crafter_level = self.get_effective_crafter_level();
        let base_progress = self.calculate_base_progress_increase(
            eff_crafter_level,
            self.crafter.craftsmanship,
        );
        let base_quality = self.calculate_base_quality_increase(
            eff_crafter_level,
            self.crafter.control,
        );
        (base_progress, base_quality)
    }
}

// ---------------------------------------------------------------------------
// Condition probabilities
// ---------------------------------------------------------------------------
/// Probability of a Good condition, in percent, from the recipe level
/// thresholds; crafters of level 63 and above get the quality-assurance bonus.
pub open spec fn spec_prob_good_percent(synth: Synth) -> int {
    let lvl = synth.recipe.level as int;
    let qa = synth.crafter.level >= 63;
    if lvl >= 300 {
        if qa {
            11
        } else {
            10
        }
    } else if lvl >= 276 {
        if qa {
            17
        } else {
            15
        }
    } else if lvl >= 255 {
        if qa {
            22
        } else {
            20
        }
    } else if lvl >= 150 {
        if qa {
            17
        } else {
            15
        }
    } else {
        if qa {
            27
        } else {
            25
        }
    }
}

/// Probability of an Excellent condition, in percent.
pub open spec fn spec_prob_excellent_percent(synth: Synth) -> int {
    let lvl = synth.recipe.level as int;
    if lvl >= 300 {
        1
    } else if lvl >= 255 {
        2
    } else if lvl >= 150 {
        1
    } else {
        2
    }
}

impl Synth {
    pub fn prob_good_for_synth(&self) -> (r: u32)
        ensures
            r as int == spec_prob_good_percent(*self),
    {
        let recipe_level = self.recipe.level;
        let quality_assurance = self.crafter.level >= 63;
        if recipe_level >= 300 {
            if quality_assurance {
                11
            } else {
                10
            }
        } else if recipe_level >= 276 {
            if quality_assurance {
                17
            } else {
                15
            }
        } else if recipe_level >= 255 {
            if quality_assurance {
                22
            } else {
                20
            }
        } else if recipe_level >= 150 {
            if quality_assurance {
                17
            } else {
                15
            }
        } else {
            if quality_assurance {
                27
            } else {
                25
            }
        }
    }

    pub fn prob_excellent_for_synth(&self) -> (r: u32)
        ensures
            r as int == spec_prob_excellent_percent(*self),
    {
        let recipe_level = self.recipe.level;
        if recipe_level >= 300 {
            1
        } else if recipe_level >= 255 {
            2
        } else if recipe_level >= 150 {
            1
        } else {
            2
        }
    }
}

// ---------------------------------------------------------------------------
// Condition expectation tracker
// ---------------------------------------------------------------------------
/// Closed-form expectation over the condition Markov chain, in basis points
/// (`10000` = probability 1). When `ignore_condition` is set (the default and
/// the only mode the solver constructs) the weights stay at their initial
/// values and every multiplier derived from them is exactly 1.
#[derive(Clone, Copy, Debug, PartialEq, Eq, Structural)]
pub struct SimulationCondition {
    pub ignore_condition: bool,
    pub pp_poor: i64,
    pub pp_normal: i64,
    pub pp_good: i64,
    pub pp_excellent: i64,
}

impl SimulationCondition {
    /// The weights form a probability distribution.
    pub open spec fn wf(&self) -> bool {
        &&& 0 <= self.pp_poor
        &&& 0 <= self.pp_normal
        &&& 0 <= self.pp_good
        &&& 0 <= self.pp_excellent
        &&& self.pp_poor + self.pp_normal + self.pp_good + self.pp_excellent == 10000
    }

    /// A fresh tracker: certainly Normal, conditions ignored.
    pub fn new_sim_condition() -> (r: SimulationCondition)
        ensures
            r == (SimulationCondition {
                ignore_condition: true,
                pp_poor: 0,
                pp_normal: 10000,
                pp_good: 0,
                pp_excellent: 0,
            }),
            r.wf(),
    {
        SimulationCondition {
            ignore_condition: true,
            pp_poor: 0,
            pp_normal: 10000,
            pp_good: 0,
            pp_excellent: 0,
        }
    }

    /// Expected weight of a Good-or-Excellent condition, in basis points.
    pub open spec fn spec_p_good_or_excellent(self) -> int {
        if self.ignore_condition {
            10000
        } else {
            self.pp_excellent + self.pp_good
        }
    }

    pub fn p_good_or_excellent(&self) -> (r: i64)
        requires
            self.wf(),
        ensures
            r as int == self.spec_p_good_or_excellent(),
            0 <= r <= 10000,
    {
        if self.ignore_condition {
            10000
        } else {
            self.pp_excellent + self.pp_good
        }
    }

    /// Whether a Good-or-Excellent action may fire; the expectation-collapsed
    /// simulation always allows these actions.
    pub fn check_good_or_excellent(&self) -> (r: bool)
        ensures
            r,
    {
        true
    }

    /// Advance the chain one step: `poor <- excellent`,
    /// `good <- p_good * normal`, `excellent <- p_excellent * normal`,
    /// `normal <- rest`. A no-op while conditions are ignored.
    pub open spec fn spec_update(self, p_good_percent: int, p_excellent_percent: int)
        -> SimulationCondition {
        if self.ignore_condition {
            self
        } else {
            let poor = self.pp_excellent;
            let good = p_good_percent * self.pp_normal / 100;
            let excellent = p_excellent_percent * self.pp_normal / 100;
            let normal = 10000 - good - excellent - poor;
            SimulationCondition {
                ignore_condition: self.ignore_condition,
                pp_poor: poor,
                pp_normal: normal as i64,
                pp_good: good as i64,
                pp_excellent: excellent as i64,
            }
        }
    }

    pub fn update(&mut self, p_good_percent: u32, p_excellent_percent: u32)
        requires
            old(self).wf(),
            p_good_percent + p_excellent_percent <= 100,
        ensures
            *final(self) == old(self).spec_update(
                p_good_percent as int,
                p_excellent_percent as int,
            ),
            final(self).wf(),
    {
        if !self.ignore_condition {
            let ghost n0: int = self.pp_normal as int;
            let ghost pg: int = p_good_percent as int;
            let ghost pe: int = p_excellent_percent as int;
            proof {
                assert(0 <= pg * n0 <= 100 * 10000 && 0 <= pe * n0 <= 100 * 10000)
                    by (nonlinear_arith)
                    requires
                        0 <= pg <= 100,
                        0 <= pe <= 100,
                        0 <= n0 <= 10000,
                ;
            }
            let poor: i64 = self.pp_excellent;
            let good: i64 = (p_good_percent as i64 * self.pp_normal) / 100;
            let excellent: i64 = (p_excellent_percent as i64 * self.pp_normal) / 100;
            proof {
                assert(good as int + excellent as int <= n0) by (nonlinear_arith)
                    requires
                        good as int == pg * n0 / 100,
                        excellent as int == pe * n0 / 100,
                        0 <= pg,
                        0 <= pe,
                        pg + pe <= 100,
                        0 <= n0,
                ;
            }
            let normal: i64 = 10000 - good - excellent - poor;
            self.pp_poor = poor;
            self.pp_good = good;
            self.pp_excellent = excellent;
            self.pp_normal = normal;
        }
    }
}

} // verus!

verus! {

// ---------------------------------------------------------------------------
// Craft state
// ---------------------------------------------------------------------------
/// Mathematical view of a craft state: unbounded integers and plain
/// sequences. All transition rules are specified on this model.
pub ghost struct StateModel {
    pub step: int,
    pub last_step: int,
    pub action: Option<Action>,
    pub durability_state: int,
    pub cp_state: int,
    pub bonus_max_cp: int,
    pub quality_state: int,
    pub progress_state: int,
    pub wasted_actions: int,
    pub trick_uses: int,
    pub reliability: int,
    pub count_downs: Seq<(Action, i8)>,
    pub count_ups: Seq<(Action, i8)>,
    pub condition: Condition,
    pub touch_combo_step: int,
    pub heart_and_soul_used: bool,
    pub careful_observation_uses: int,
    pub base_progress_gain: int,
    pub base_quality_gain: int,
}

/// Invariants that hold of every state the simulator produces: unique effect
/// keys, countdown turns in `1..=8`, inner-quiet stacks in `-1..=9`, and
/// non-negative counters.
pub open spec fn wf_model(m: StateModel) -> bool {
    &&& keys_unique(m.count_downs)
    &&& keys_unique(m.count_ups)
    &&& values_within(m.count_downs, 1, 8)
    &&& values_within(m.count_ups, -1, 9)
    &&& m.wasted_actions >= 0
    &&& m.reliability >= 0
    &&& m.step >= 0
    &&& m.careful_observation_uses >= 0
    &&& m.bonus_max_cp >= 0
    &&& (m.touch_combo_step == 0 || m.touch_combo_step == 1)
}

/// Snapshot of a partial craft. Produced from a `Synth` and advanced by
/// `add_action`; the synth itself is passed to every operation.
#[derive(Debug)]
pub struct State {
    pub step: i64,
    pub last_step: i64,
    /// The action that produced this state.
    pub action: Option<Action>,
    pub durability_state: i64,
    pub cp_state: i64,
    pub bonus_max_cp: i64,
    pub quality_state: i64,
    pub progress_state: i64,
    pub wasted_actions: i64,
    pub trick_uses: i64,
    pub reliability: i64,
    pub effects: Effects,
    pub condition: Condition,
    pub touch_combo_step: i64,
    pub heart_and_soul_used: bool,
    pub careful_observation_uses: i64,
    /// Diagnostic: the last action's progress gain before the success scale.
    pub base_progress_gain: i64,
    /// Diagnostic: the last action's quality gain before the success scale.
    pub base_quality_gain: i64,
}

impl State {
    pub open spec fn model(&self) -> StateModel {
        StateModel {
            step: self.step as int,
            last_step: self.last_step as int,
            action: self.action,
            durability_state: self.durability_state as int,
            cp_state: self.cp_state as int,
            bonus_max_cp: self.bonus_max_cp as int,
            quality_state: self.quality_state as int,
            progress_state: self.progress_state as int,
            wasted_actions: self.wasted_actions as int,
            trick_uses: self.trick_uses as int,
            reliability: self.reliability as int,
            count_downs: self.effects.count_downs@,
            count_ups: self.effects.count_ups@,
            condition: self.condition,
            touch_combo_step: self.touch_combo_step as int,
            heart_and_soul_used: self.heart_and_soul_used,
            careful_observation_uses: self.careful_observation_uses as int,
            base_progress_gain: self.base_progress_gain as int,
            base_quality_gain: self.base_quality_gain as int,
        }
    }

    pub open spec fn wf(&self) -> bool {
        wf_model(self.model())
    }

    /// An identical copy of this state.
    pub fn duplicate(&self) -> (r: State)
        ensures
            r.model() == self.model(),
    {
        State {
            step: self.step,
            last_step: self.last_step,
            action: self.action,
            durability_state: self.durability_state,
            cp_state: self.cp_state,
            bonus_max_cp: self.bonus_max_cp,
            quality_state: self.quality_state,
            progress_state: self.progress_state,
            wasted_actions: self.wasted_actions,
            trick_uses: self.trick_uses,
            reliability: self.reliability,
            effects: self.effects.duplicate(),
            condition: self.condition,
            touch_combo_step: self.touch_combo_step,
            heart_and_soul_used: self.heart_and_soul_used,
            careful_observation_uses: self.careful_observation_uses,
            base_progress_gain: self.base_progress_gain,
            base_quality_gain: self.base_quality_gain,
        }
    }
}

/// The state a craft starts in: full durability and CP, start quality, no
/// progress, Inner Quiet armed at the `-1` sentinel, condition Normal.
pub open spec fn spec_initial(synth: Synth) -> StateModel {
    StateModel {
        step: 0,
        last_step: 0,
        action: None,
        durability_state: synth.recipe.durability as int,
        cp_state: synth.crafter.craft_points as int,
        bonus_max_cp: 0,
        quality_state: synth.recipe.start_quality as int,
        progress_state: 0,
        wasted_actions: 0,
        trick_uses: 0,
        reliability: 1,
        count_downs: Seq::<(Action, i8)>::empty(),
        count_ups: seq![(Action::InnerQuiet, -1i8)],
        condition: Condition::Normal,
        touch_combo_step: 0,
        heart_and_soul_used: false,
        careful_observation_uses: 0,
        base_progress_gain: 0,
        base_quality_gain: 0,
    }
}

impl State {
    /// Build the initial state of a craft.
    pub fn initial(synth: &Synth) -> (r: State)
        ensures
            r.model() == spec_initial(*synth),
            r.wf(),
    {
        let mut effects = Effects::empty();
        effects.count_ups.insert(Action::InnerQuiet, -1);
        proof {
            assert(effects.count_ups@ =~= seq![(Action::InnerQuiet, -1i8)]);
        }
        let r = State {
            step: 0,
            last_step: 0,
            action: None,
            durability_state: synth.recipe.durability as i64,
            cp_state: synth.crafter.craft_points as i64,
            bonus_max_cp: 0,
            quality_state: synth.recipe.start_quality as i64,
            progress_state: 0,
            wasted_actions: 0,
            trick_uses: 0,
            reliability: 1,
            effects,
            condition: Condition::Normal,
            touch_combo_step: 0,
            heart_and_soul_used: false,
            careful_observation_uses: 0,
            base_progress_gain: 0,
            base_quality_gain: 0,
        };
        proof {
            assert(r.model().count_ups == seq![(Action::InnerQuiet, -1i8)]);
        }
        r
    }
}

} // verus!

verus! {

// ---------------------------------------------------------------------------
// Phase A: modifier computation
// ---------------------------------------------------------------------------
/// The numeric outcome of an action before it is committed: effective
/// success chance, gains, and costs.
#[derive(Clone, Copy, Debug, PartialEq, Eq, Structural)]
pub struct ModifierResult {
    /// Effective success probability, in percent.
    pub success_percent: i64,
    pub progress_gain: i64,
    pub quality_gain: i64,
    pub durability_cost: i64,
    pub cp_cost: i64,
}

/// Whether a countdown entry for `a` is active.
pub open spec fn cd_has(s: Seq<(Action, i8)>, a: Action) -> bool {
    seq_get(s, a) is Some
}

/// Inner-quiet stack count, with absence read as 0.
pub open spec fn spec_iq_count(ups: Seq<(Action, i8)>) -> int {
    match seq_get(ups, Action::InnerQuiet) {
        Some(v) => v as int,
        None => 0,
    }
}

pub open spec fn min_int(a: int, b: int) -> int {
    if a < b {
        a
    } else {
        b
    }
}

/// Phase A of a transition. Computes the action's effective numbers and the
/// state changes that accompany them (wasted-action penalties, the touch
/// combo marker, and the consumption of Muscle Memory). `p_bp` is the
/// Good-or-Excellent expectation in basis points.
/// Effective success probability: Focused actions after an Observe always
/// succeed; capped at 100 percent.
pub open spec fn spec_success_percent(m: StateModel, a: Action) -> int {
    let sp0 = if (a == Action::FocusedSynthesis || a == Action::FocusedTouch) && m.action == Some(
        Action::Observe,
    ) {
        100
    } else {
        spec_details(a).success_percent as int
    };
    min_int(sp0, 100)
}

/// Whether the touch combo discount applies: Basic -> Standard or
/// Standard -> Advanced with the matching combo marker.
pub open spec fn spec_touch_combo_hit(m: StateModel, a: Action) -> bool {
    ||| (a == Action::AdvancedTouch && m.action == Some(Action::StandardTouch)
        && m.touch_combo_step == 1)
    ||| (a == Action::StandardTouch && m.action == Some(Action::BasicTouch) && m.touch_combo_step
        == 0)
}

/// The touch combo marker after the action.
pub open spec fn spec_touch_combo_after(m: StateModel, a: Action) -> int {
    if a == Action::AdvancedTouch && m.action == Some(Action::StandardTouch) && m.touch_combo_step
        == 1 {
        0
    } else if a == Action::StandardTouch && m.action == Some(Action::BasicTouch)
        && m.touch_combo_step == 0 {
        1
    } else {
        m.touch_combo_step
    }
}

/// Muscle Memory is consumed by the first progress action while active.
pub open spec fn spec_mm_consumed(m: StateModel, a: Action) -> bool {
    spec_details(a).progress_percent > 0 && cd_has(m.count_downs, Action::MuscleMemory)
}

/// Muscle Memory outside step 1 is wasted.
pub open spec fn spec_mm_late(m: StateModel, a: Action) -> bool {
    a == Action::MuscleMemory && m.step != 1
}

/// Trained Eye applies only at step 1, ten levels above a starless recipe.
pub open spec fn spec_trained_eye_ok(m: StateModel, synth: Synth) -> bool {
    m.step == 1 && synth.crafter.level as int - synth.recipe.base_level as int >= 10
        && synth.recipe.stars is None
}

/// Reflect outside step 1 is wasted.
pub open spec fn spec_reflect_late(m: StateModel, a: Action) -> bool {
    a == Action::Reflect && m.step != 1
}

/// Waste Not or Waste Not II is active.
pub open spec fn spec_waste_not_active(m: StateModel) -> bool {
    cd_has(m.count_downs, Action::WasteNot) || cd_has(m.count_downs, Action::WasteNot2)
}

/// The prudent actions refuse Waste Not and are wasted under it.
pub open spec fn spec_prudent_clash(m: StateModel, a: Action) -> bool {
    spec_waste_not_active(m) && (a == Action::PrudentTouch || a == Action::PrudentSynthesis)
}

/// Effective CP cost: the combo discount, and zero for a wasted Muscle
/// Memory, Trained Eye or Reflect.
pub open spec fn spec_cp_cost(m: StateModel, synth: Synth, a: Action) -> int {
    if spec_mm_late(m, a) {
        0
    } else if a == Action::TrainedEye && !spec_trained_eye_ok(m, synth) {
        0
    } else if spec_reflect_late(m, a) {
        0
    } else if spec_touch_combo_hit(m, a) {
        18
    } else {
        spec_details(a).cp_cost as int
    }
}

/// Progress multiplier in percent: 1, doubled by Muscle Memory, plus one
/// half under Veneration; zero for a wasted Muscle Memory.
pub open spec fn spec_progress_mult(m: StateModel, a: Action) -> int {
    if spec_mm_late(m, a) {
        0
    } else {
        (if spec_mm_consumed(m, a) {
            200int
        } else {
            100int
        }) + (if cd_has(m.count_downs, Action::Veneration) {
            50int
        } else {
            0int
        })
    }
}

/// Additive quality multiplier in percent: 1, plus 1 under Great Strides,
/// plus one half under Innovation; Byregot's Blessing multiplies it by
/// `1 + min(3, 0.2 * (stacks + 1))` and needs at least one stack.
pub open spec fn spec_quality_mult(m: StateModel, a: Action) -> int {
    let base = (if cd_has(m.count_downs, Action::GreatStrides) {
        200int
    } else {
        100int
    }) + (if cd_has(m.count_downs, Action::Innovation) {
        50int
    } else {
        0int
    });
    if a == Action::ByregotsBlessing {
        let n_iq = spec_iq_count(m.count_ups);
        if n_iq >= 1 {
            base * (100 + min_int(300, 20 * (n_iq + 1))) / 100
        } else {
            0
        }
    } else {
        base
    }
}

/// Multiplicative Inner Quiet quality factor in percent:
/// `1 + 0.1 * (stacks + 1)`.
pub open spec fn spec_iq_mult(m: StateModel) -> int {
    match seq_get(m.count_ups, Action::InnerQuiet) {
        Some(v) => 100 + 10 * (v as int + 1),
        None => 100,
    }
}

/// Effective durability cost: halved under Waste Not, except for the
/// prudent actions.
pub open spec fn spec_durability_cost(m: StateModel, a: Action) -> int {
    if spec_waste_not_active(m) && a != Action::PrudentTouch && a != Action::PrudentSynthesis {
        spec_details(a).durability_cost as int / 2
    } else {
        spec_details(a).durability_cost as int
    }
}

/// Progress gain before the under-durability rule: one floor over
/// `base * action multiplier * progress multiplier`, and zero for Prudent
/// Synthesis under Waste Not.
pub open spec fn spec_progress_gain_full(m: StateModel, synth: Synth, a: Action) -> int {
    let bp = spec_base_progress(
        synth,
        spec_level_table_lookup(synth.crafter.level),
        synth.crafter.craftsmanship,
    );
    let pg1 = bp * spec_details(a).progress_percent as int * spec_progress_mult(m, a) / 10000;
    if spec_waste_not_active(m) && a == Action::PrudentSynthesis {
        0
    } else {
        pg1
    }
}

/// Progress gain: the full gain, halved for a Groundwork short on
/// durability.
pub open spec fn spec_progress_gain(m: StateModel, synth: Synth, a: Action) -> int {
    let pg2 = spec_progress_gain_full(m, synth, a);
    if m.durability_state < spec_durability_cost(m, a) && (a == Action::Groundwork || a
        == Action::Groundwork2) {
        pg2 / 2
    } else {
        pg2
    }
}

/// Quality gain: the base gain through the action, additive, and Inner
/// Quiet multipliers, each multiplication floored; zeroed for a wasted
/// Trained Finesse, Prudent Touch under Waste Not, a failed Trained Eye
/// gate and a late Reflect; Trained Eye inside its gate yields the full
/// remaining quality; Precise Touch scales by the Good-or-Excellent
/// expectation.
pub open spec fn spec_quality_gain(m: StateModel, synth: Synth, a: Action, p_bp: int) -> int {
    let bq = spec_base_quality(
        synth,
        spec_level_table_lookup(synth.crafter.level),
        synth.crafter.control,
    );
    let qg1 = bq * spec_details(a).quality_percent as int / 100;
    let qg2 = qg1 * spec_quality_mult(m, a) / 100;
    let qg3 = qg2 * spec_iq_mult(m) / 100;
    let qg4 = if a == Action::TrainedFinesse && spec_iq_count(m.count_ups) != 9 {
        0
    } else {
        qg3
    };
    let qg5 = if spec_waste_not_active(m) && a == Action::PrudentTouch {
        0
    } else {
        qg4
    };
    let qg6 = if a == Action::TrainedEye {
        if spec_trained_eye_ok(m, synth) {
            synth.recipe.max_quality as int
        } else {
            0
        }
    } else {
        qg5
    };
    let qg7 = if a == Action::PreciseTouch {
        qg6 * (p_bp / 10000)
    } else {
        qg6
    };
    if spec_reflect_late(m, a) {
        0
    } else {
        qg7
    }
}

/// Wasted-action mass added by phase A.
pub open spec fn spec_wasted_after_mod(m: StateModel, synth: Synth, a: Action) -> int {
    let w1 = if (a == Action::WasteNot || a == Action::WasteNot2)
        && synth.solver_vars.solve_for_completion {
        crate::sat64(m.wasted_actions + 50)
    } else {
        m.wasted_actions
    };
    let w2 = if spec_mm_late(m, a) {
        crate::sat64(w1 + 10)
    } else {
        w1
    };
    let w3 = if a == Action::TrainedFinesse && spec_iq_count(m.count_ups) != 9 {
        crate::sat64(w2 + 1)
    } else {
        w2
    };
    let w4 = if spec_prudent_clash(m, a) {
        crate::sat64(w3 + 1)
    } else {
        w3
    };
    let w5 = if a == Action::TrainedEye && !spec_trained_eye_ok(m, synth) {
        crate::sat64(w4 + 1)
    } else {
        w4
    };
    if spec_reflect_late(m, a) {
        crate::sat64(w5 + 1)
    } else {
        w5
    }
}

/// The countdown store after phase A: Muscle Memory consumed if a progress
/// action used it.
pub open spec fn spec_cds_after_mod(m: StateModel, a: Action) -> Seq<(Action, i8)> {
    if spec_mm_consumed(m, a) {
        spec_remove(m.count_downs, Action::MuscleMemory)
    } else {
        m.count_downs
    }
}

/// Phase A of a transition: the action's effective numbers, and the state
/// changes that accompany them. `p_bp` is the Good-or-Excellent expectation
/// in basis points.
pub open spec fn spec_modifiers(m: StateModel, synth: Synth, a: Action, p_bp: int) -> (
    StateModel,
    ModifierResult,
) {
    let m2 = StateModel {
        wasted_actions: spec_wasted_after_mod(m, synth, a),
        touch_combo_step: spec_touch_combo_after(m, a),
        count_downs: spec_cds_after_mod(m, a),
        ..m
    };
    let r = ModifierResult {
        success_percent: spec_success_percent(m, a) as i64,
        progress_gain: spec_progress_gain(m, synth, a) as i64,
        quality_gain: spec_quality_gain(m, synth, a, p_bp) as i64,
        durability_cost: spec_durability_cost(m, a) as i64,
        cp_cost: spec_cp_cost(m, synth, a) as i64,
    };
    (m2, r)
}
} // verus!

verus! {

/// Catalog-wide bounds used by the overflow arguments.
pub proof fn lemma_details_bounds(a: Action)
    ensures
        0 <= spec_details(a).durability_cost <= 20,
        0 <= spec_details(a).cp_cost <= 250,
        0 <= spec_details(a).success_percent <= 100,
        0 <= spec_details(a).quality_percent <= 200,
        0 <= spec_details(a).progress_percent <= 500,
        match spec_details(a).action_type {
            ActionType::Countdown { active_turns } => 1 <= active_turns <= 8,
            _ => true,
        },
{
    reveal(spec_details);
}

/// Bounded factors have a bounded product.
pub proof fn lemma_mul_le(x: int, xb: int, y: int, yb: int)
    by (nonlinear_arith)
    requires
        0 <= x <= xb,
        0 <= y <= yb,
    ensures
        0 <= x * y <= xb * yb,
{
}

/// A non-negative value divided by a positive divisor stays within the
/// quotient of its bound.
pub proof fn lemma_div_bound(p: int, d: int, cap: int)
    by (nonlinear_arith)
    requires
        0 <= p <= cap * d,
        1 <= d,
        0 <= cap,
    ensures
        0 <= p / d <= cap,
{
}


impl State {
    /// Effective success probability of `action` from this state.
    fn gain_success_percent(&self, action: Action) -> (r: i64)
        ensures
            r as int == spec_success_percent(self.model(), action),
            0 <= r <= 100,
    {
        proof {
            lemma_details_bounds(action);
        }
        let details = action.details();
        let mut success_percent: i64 = details.success_percent;
        if action == Action::FocusedSynthesis || action == Action::FocusedTouch {
            if let Some(sa) = self.action {
                if sa == Action::Observe {
                    success_percent = 100;
                }
            }
        }
        if success_percent > 100 {
            success_percent = 100;
        }
        success_percent
    }

    /// Effective CP cost of `action` from this state.
    fn gain_cp_cost(&self, synth: &Synth, action: Action) -> (r: i64)
        ensures
            r as int == spec_cp_cost(self.model(), *synth, action),
    {
        proof {
            lemma_details_bounds(action);
        }
        let details = action.details();
        let mut cp_cost: i64 = details.cp_cost;
        if action == Action::AdvancedTouch {
            if let Some(sa) = self.action {
                if sa == Action::StandardTouch && self.touch_combo_step == 1 {
                    cp_cost = 18;
                }
            }
        }
        if action == Action::StandardTouch {
            if let Some(sa) = self.action {
                if sa == Action::BasicTouch && self.touch_combo_step == 0 {
                    cp_cost = 18;
                }
            }
        }
        if action == Action::MuscleMemory && self.step != 1 {
            cp_cost = 0;
        }
        if action == Action::TrainedEye {
            let pure_level_difference: i64 = synth.crafter.level as i64
                - synth.recipe.base_level as i64;
            if !(self.step == 1 && pure_level_difference >= 10 && synth.recipe.stars.is_none()) {
                cp_cost = 0;
            }
        }
        if action == Action::Reflect && self.step != 1 {
            cp_cost = 0;
        }
        cp_cost
    }

    /// Effective durability cost of `action` from this state.
    fn gain_durability_cost(&self, action: Action) -> (r: i64)
        ensures
            r as int == spec_durability_cost(self.model(), action),
            0 <= r <= 20,
    {
        proof {
            lemma_details_bounds(action);
        }
        let details = action.details();
        let waste_not_active = self.effects.count_downs.get(Action::WasteNot).is_some()
            || self.effects.count_downs.get(Action::WasteNot2).is_some();
        if waste_not_active && action != Action::PrudentTouch && action
            != Action::PrudentSynthesis {
            details.durability_cost / 2
        } else {
            details.durability_cost
        }
    }

    /// Additive quality multiplier of `action` from this state, in percent.
    fn gain_quality_mult(&self, action: Action) -> (r: i64)
        requires
            self.wf(),
        ensures
            r as int == spec_quality_mult(self.model(), action),
            0 <= r <= 1000,
    {
        let ghost m = self.model();
        proof {
            lemma_get_within(m.count_ups, Action::InnerQuiet, -1, 9);
        }
        let mut quality_mult: i64 = 100;
        if self.effects.count_downs.get(Action::GreatStrides).is_some() {
            quality_mult = quality_mult + 100;
        }
        if self.effects.count_downs.get(Action::Innovation).is_some() {
            quality_mult = quality_mult + 50;
        }
        if action == Action::ByregotsBlessing {
            let num_inner_quiets: i64 = match self.effects.count_ups.get(Action::InnerQuiet) {
                Some(v) => v as i64,
                None => 0,
            };
            if num_inner_quiets >= 1 {
                let mut factor: i64 = 20 * (num_inner_quiets + 1);
                if factor > 300 {
                    factor = 300;
                }
                proof {
                    lemma_mul_le(quality_mult as int, 250, 100 + factor as int, 400);
                }
                let prod: i64 = quality_mult * (100 + factor);
                proof {
                    lemma_div_bound(prod as int, 100, 1000);
                }
                quality_mult = prod / 100;
            } else {
                quality_mult = 0;
            }
        }
        quality_mult
    }

    /// Progress gain of `action` from this state.
    #[verifier::rlimit(50)]
    fn gain_progress(&self, synth: &Synth, action: Action) -> (r: i64)
        requires
            self.wf(),
            synth.wf(),
        ensures
            r as int == spec_progress_gain(self.model(), *synth, action),
    {
        proof {
            lemma_details_bounds(action);
        }
        let details = action.details();
        let mut progress_mult: i64 = 100;
        if details.progress_percent > 0 && self.effects.count_downs.get(
            Action::MuscleMemory,
        ).is_some() {
            progress_mult = progress_mult + 100;
        }
        if self.effects.count_downs.get(Action::Veneration).is_some() {
            progress_mult = progress_mult + 50;
        }
        if action == Action::MuscleMemory && self.step != 1 {
            progress_mult = 0;
        }
        let eff_crafter_level = synth.get_effective_crafter_level();
        let base_progress = synth.calculate_base_progress_increase(
            eff_crafter_level,
            synth.crafter.craftsmanship,
        ) as i64;
        proof {
            lemma_mul_le(
                base_progress as int,
                0xffff_ffff,
                spec_details(action).progress_percent as int,
                500,
            );
        }
        let prod_p1: i64 = base_progress * details.progress_percent;
        proof {
            lemma_mul_le(prod_p1 as int, 0xffff_ffff as int * 500, progress_mult as int, 250);
        }
        let prod_p2: i64 = prod_p1 * progress_mult;
        proof {
            lemma_div_bound(prod_p2 as int, 10000, 0xffff_ffff as int * 13);
        }
        let mut progress_gain: i64 = prod_p2 / 10000;
        let waste_not_active = self.effects.count_downs.get(Action::WasteNot).is_some()
            || self.effects.count_downs.get(Action::WasteNot2).is_some();
        if waste_not_active && action == Action::PrudentSynthesis {
            progress_gain = 0;
        }
        let durability_cost = self.gain_durability_cost(action);
        if self.durability_state < durability_cost && (action == Action::Groundwork || action
            == Action::Groundwork2) {
            progress_gain = progress_gain / 2;
        }
        progress_gain
    }

    /// Quality gain of `action` from this state.
    #[verifier::rlimit(50)]
    fn gain_quality(&self, synth: &Synth, action: Action, condition: &SimulationCondition) -> (r:
        i64)
        requires
            self.wf(),
            synth.wf(),
            condition.wf(),
        ensures
            r as int == spec_quality_gain(
                self.model(),
                *synth,
                action,
                condition.spec_p_good_or_excellent(),
            ),
    {
        let ghost m = self.model();
        proof {
            lemma_details_bounds(action);
            lemma_get_within(m.count_ups, Action::InnerQuiet, -1, 9);
        }
        let details = action.details();
        let quality_mult = self.gain_quality_mult(action);
        let iq_value = self.effects.count_ups.get(Action::InnerQuiet);
        let mut iq_mult: i64 = 100;
        if let Some(v) = iq_value {
            iq_mult = 100 + 10 * (v as i64 + 1);
        }
        let num_inner_quiets: i64 = match iq_value {
            Some(v) => v as i64,
            None => 0,
        };
        let eff_crafter_level = synth.get_effective_crafter_level();
        let base_quality = synth.calculate_base_quality_increase(
            eff_crafter_level,
            synth.crafter.control,
        ) as i64;
        proof {
            lemma_mul_le(
                base_quality as int,
                0xffff_ffff,
                spec_details(action).quality_percent as int,
                200,
            );
        }
        let prod_q1: i64 = base_quality * details.quality_percent;
        proof {
            lemma_div_bound(prod_q1 as int, 100, 0xffff_ffff as int * 2);
        }
        let mut quality_gain: i64 = prod_q1 / 100;
        proof {
            lemma_mul_le(quality_gain as int, 0xffff_ffff as int * 2, quality_mult as int, 1000);
        }
        let prod_q2: i64 = quality_gain * quality_mult;
        proof {
            lemma_div_bound(prod_q2 as int, 100, 0xffff_ffff as int * 20);
        }
        quality_gain = prod_q2 / 100;
        proof {
            lemma_mul_le(quality_gain as int, 0xffff_ffff as int * 20, iq_mult as int, 200);
        }
        let prod_q3: i64 = quality_gain * iq_mult;
        proof {
            lemma_div_bound(prod_q3 as int, 100, 0xffff_ffff as int * 40);
        }
        quality_gain = prod_q3 / 100;

        if action == Action::TrainedFinesse && num_inner_quiets != 9 {
            quality_gain = 0;
        }
        let waste_not_active = self.effects.count_downs.get(Action::WasteNot).is_some()
            || self.effects.count_downs.get(Action::WasteNot2).is_some();
        if waste_not_active && action == Action::PrudentTouch {
            quality_gain = 0;
        }
        if action == Action::TrainedEye {
            let pure_level_difference: i64 = synth.crafter.level as i64
                - synth.recipe.base_level as i64;
            if self.step == 1 && pure_level_difference >= 10 && synth.recipe.stars.is_none() {
                quality_gain = synth.recipe.max_quality as i64;
            } else {
                quality_gain = 0;
            }
        }
        if action == Action::PreciseTouch {
            let p = condition.p_good_or_excellent();
            proof {
                lemma_mul_le(quality_gain as int, 0x7fff_ffff_ffff_ffff, p as int / 10000, 1);
            }
            quality_gain = quality_gain * (p / 10000);
        }
        if action == Action::Reflect && self.step != 1 {
            quality_gain = 0;
        }
        quality_gain
    }

    /// The numeric outcome of `action` on this state: a pure computation
    /// against the pre-transition state.
    fn modifier_gains(
        &self,
        synth: &Synth,
        action: Action,
        condition: &SimulationCondition,
    ) -> (r: ModifierResult)
        requires
            self.wf(),
            synth.wf(),
            condition.wf(),
        ensures
            r == spec_modifiers(
                self.model(),
                *synth,
                action,
                condition.spec_p_good_or_excellent(),
            ).1,
    {
        ModifierResult {
            success_percent: self.gain_success_percent(action),
            progress_gain: self.gain_progress(synth, action),
            quality_gain: self.gain_quality(synth, action, condition),
            durability_cost: self.gain_durability_cost(action),
            cp_cost: self.gain_cp_cost(synth, action),
        }
    }

    /// The state changes of phase A: wasted-action penalties, the touch
    /// combo marker, and the consumption of Muscle Memory.
    #[verifier::rlimit(100)]
    fn modifier_commit(&mut self, synth: &Synth, action: Action, Ghost(p_bp): Ghost<int>)
        requires
            old(self).wf(),
            synth.wf(),
        ensures
            final(self).model() == spec_modifiers(old(self).model(), *synth, action, p_bp).0,
    {
        let ghost m = old(self).model();
        proof {
            lemma_details_bounds(action);
            lemma_get_within(m.count_ups, Action::InnerQuiet, -1, 9);
        }
        let details = action.details();

        // Touch combo marker.
        if action == Action::AdvancedTouch {
            if let Some(sa) = self.action {
                if sa == Action::StandardTouch && self.touch_combo_step == 1 {
                    self.touch_combo_step = 0;
                }
            }
        }
        if action == Action::StandardTouch {
            if let Some(sa) = self.action {
                if sa == Action::BasicTouch && self.touch_combo_step == 0 {
                    self.touch_combo_step = 1;
                }
            }
        }

        // Waste Not is penalized in completion mode.
        if (action == Action::WasteNot || action == Action::WasteNot2)
            && synth.solver_vars.solve_for_completion {
            self.wasted_actions = crate::add_sat(self.wasted_actions, 50);
        }

        // Muscle Memory is consumed by any progress action; using it late is
        // wasted.
        if details.progress_percent > 0 && self.effects.count_downs.get(
            Action::MuscleMemory,
        ).is_some() {
            self.effects.count_downs.remove(Action::MuscleMemory);
        }
        if action == Action::MuscleMemory && self.step != 1 {
            self.wasted_actions = crate::add_sat(self.wasted_actions, 10);
        }

        // Trained Finesse below ten stacks.
        let num_inner_quiets: i64 = match self.effects.count_ups.get(Action::InnerQuiet) {
            Some(v) => v as i64,
            None => 0,
        };
        if action == Action::TrainedFinesse && num_inner_quiets != 9 {
            self.wasted_actions = crate::add_sat(self.wasted_actions, 1);
        }

        // The prudent actions under Waste Not.
        let ghost cds_now = self.effects.count_downs@;
        proof {
            if spec_details(action).progress_percent > 0 && cd_has(
                m.count_downs,
                Action::MuscleMemory,
            ) {
                lemma_get_remove(m.count_downs, Action::MuscleMemory, Action::WasteNot);
                lemma_get_remove(m.count_downs, Action::MuscleMemory, Action::WasteNot2);
            }
        }
        let waste_not_active = self.effects.count_downs.get(Action::WasteNot).is_some()
            || self.effects.count_downs.get(Action::WasteNot2).is_some();
        if waste_not_active && (action == Action::PrudentTouch || action
            == Action::PrudentSynthesis) {
            self.wasted_actions = crate::add_sat(self.wasted_actions, 1);
        }

        // Trained Eye outside its gate.
        if action == Action::TrainedEye {
            let pure_level_difference: i64 = synth.crafter.level as i64
                - synth.recipe.base_level as i64;
            if !(self.step == 1 && pure_level_difference >= 10 && synth.recipe.stars.is_none()) {
                self.wasted_actions = crate::add_sat(self.wasted_actions, 1);
            }
        }

        // Reflect outside step 1.
        if action == Action::Reflect && self.step != 1 {
            self.wasted_actions = crate::add_sat(self.wasted_actions, 1);
        }
    }

    /// Phase A of a transition: compute the action's effective numbers and
    /// commit the state changes that accompany them.
    fn apply_modifiers(
        &mut self,
        synth: &Synth,
        action: Action,
        condition: &SimulationCondition,
    ) -> (r: ModifierResult)
        requires
            old(self).wf(),
            synth.wf(),
            condition.wf(),
        ensures
            final(self).model() == spec_modifiers(
                old(self).model(),
                *synth,
                action,
                condition.spec_p_good_or_excellent(),
            ).0,
            r == spec_modifiers(
                old(self).model(),
                *synth,
                action,
                condition.spec_p_good_or_excellent(),
            ).1,
    {
        let r = self.modifier_gains(synth, action, condition);
        self.modifier_commit(
            synth,
            action,
            Ghost(condition.spec_p_good_or_excellent()),
        );
        r
    }
}

} // verus!

verus! {

// ---------------------------------------------------------------------------
// Phase B: special action effects
// ---------------------------------------------------------------------------
/// Phase B of a transition: effect bookkeeping beyond the numeric gains.
/// Runs after the resource commit, on the post-commit durability.
pub open spec fn spec_special(m: StateModel, synth: Synth, a: Action, p_bp: int) -> StateModel {
    let d = spec_details(a);
    // Master's Mend restores durability (penalized in completion mode).
    let dur1 = if a == Action::MastersMend {
        crate::sat64(m.durability_state + 30)
    } else {
        m.durability_state
    };
    let w1 = if a == Action::MastersMend && synth.solver_vars.solve_for_completion {
        crate::sat64(m.wasted_actions + 50)
    } else {
        m.wasted_actions
    };
    // Manipulation restores 5 durability after any other action.
    let manip = cd_has(m.count_downs, Action::Manipulation) && a != Action::Manipulation;
    let dur2 = if manip {
        crate::sat64(dur1 + 5)
    } else {
        dur1
    };
    let w2 = if manip && synth.solver_vars.solve_for_completion {
        crate::sat64(w1 + 50)
    } else {
        w1
    };
    // Byregot's Blessing consumes Inner Quiet entirely.
    let iq_present = seq_get(m.count_ups, Action::InnerQuiet) is Some;
    let ups1 = if a == Action::ByregotsBlessing && iq_present {
        spec_remove(m.count_ups, Action::InnerQuiet)
    } else {
        m.count_ups
    };
    let w3 = if a == Action::ByregotsBlessing && !iq_present {
        crate::sat64(w2 + 1)
    } else {
        w2
    };
    // Reflect at step 1 sets the Inner Quiet stacks to 1.
    let ups2 = if a == Action::Reflect && m.step == 1 {
        if iq_present {
            spec_insert(ups1, Action::InnerQuiet, 1)
        } else {
            spec_insert(ups1, Action::InnerQuiet, 0)
        }
    } else {
        ups1
    };
    let w4 = if a == Action::Reflect && m.step != 1 {
        crate::sat64(w3 + 1)
    } else {
        w3
    };
    // Final Appraisal clamps progress just short of completion.
    let fa = seq_get(m.count_downs, Action::FinalAppraisal);
    let prog1 = match fa {
        Some(c) => min_int(m.progress_state, synth.recipe.difficulty as int - 1),
        None => m.progress_state,
    };
    let w5 = match fa {
        Some(c) => if c <= 1 && prog1 != synth.recipe.difficulty as int - 1 {
            crate::sat64(w4 + 10)
        } else {
            w4
        },
        None => w4,
    };
    // A quality action consumes Great Strides.
    let cds1 = if d.quality_percent > 0 && cd_has(m.count_downs, Action::GreatStrides) {
        spec_remove(m.count_downs, Action::GreatStrides)
    } else {
        m.count_downs
    };
    // The specialist-gated actions without the specialist flag.
    let w6 = if !synth.crafter.specialist && (a == Action::HeartAndSoul || a
        == Action::CarefulObservation) {
        crate::sat64(w5 + 100)
    } else {
        w5
    };
    // Heart and Soul is once per craft.
    let w7 = if a == Action::HeartAndSoul && m.heart_and_soul_used {
        crate::sat64(w6 + 100)
    } else {
        w6
    };
    let hs = if a == Action::HeartAndSoul {
        true
    } else {
        m.heart_and_soul_used
    };
    // Careful Observation is free three times.
    let w8 = if a == Action::CarefulObservation && m.careful_observation_uses >= 3 {
        crate::sat64(w7 + 10)
    } else {
        w7
    };
    let co = if a == Action::CarefulObservation {
        crate::sat64(m.careful_observation_uses + 1)
    } else {
        m.careful_observation_uses
    };
    // Good-or-Excellent-gated actions need Heart and Soul just before them;
    // Tricks of the Trade then restores CP.
    let gated = d.on_good || d.on_excellent;
    let after_hs = m.action == Some(Action::HeartAndSoul);
    let cp1 = if gated && after_hs && a == Action::TricksOfTheTrade {
        crate::sat64(m.cp_state + 20 * p_bp / 10000)
    } else {
        m.cp_state
    };
    let w9 = if gated && !after_hs {
        crate::sat64(w8 + 100)
    } else {
        w8
    };
    StateModel {
        durability_state: dur2,
        wasted_actions: w9,
        count_ups: ups2,
        count_downs: cds1,
        progress_state: prog1,
        heart_and_soul_used: hs,
        careful_observation_uses: co,
        cp_state: cp1,
        ..m
    }
}

impl State {
    /// Phase B: commit the effect changes that go beyond the numeric gains.
    #[verifier::rlimit(100)]
    fn apply_special_action_effects(
        &mut self,
        synth: &Synth,
        action: Action,
        condition: &SimulationCondition,
    ) -> (r: ())
        requires
            old(self).wf(),
            synth.wf(),
            condition.wf(),
        ensures
            final(self).model() == spec_special(
                old(self).model(),
                *synth,
                action,
                condition.spec_p_good_or_excellent(),
            ),
    {
        let ghost m = old(self).model();
        proof {
            lemma_details_bounds(action);
        }
        let details = action.details();

        if action == Action::MastersMend {
            self.durability_state = crate::add_sat(self.durability_state, 30);
            if synth.solver_vars.solve_for_completion {
                self.wasted_actions = crate::add_sat(self.wasted_actions, 50);
            }
        }

        if self.effects.count_downs.get(Action::Manipulation).is_some() && action
            != Action::Manipulation {
            self.durability_state = crate::add_sat(self.durability_state, 5);
            if synth.solver_vars.solve_for_completion {
                self.wasted_actions = crate::add_sat(self.wasted_actions, 50);
            }
        }

        if action == Action::ByregotsBlessing {
            if self.effects.count_ups.get(Action::InnerQuiet).is_some() {
                self.effects.count_ups.remove(Action::InnerQuiet);
            } else {
                self.wasted_actions = crate::add_sat(self.wasted_actions, 1);
            }
        }

        if action == Action::Reflect {
            if self.step == 1 {
                if self.effects.count_ups.get(Action::InnerQuiet).is_some() {
                    self.effects.count_ups.insert(Action::InnerQuiet, 1);
                } else {
                    self.effects.count_ups.insert(Action::InnerQuiet, 0);
                }
            } else {
                self.wasted_actions = crate::add_sat(self.wasted_actions, 1);
            }
        }

        if let Some(count) = self.effects.count_downs.get(Action::FinalAppraisal) {
            self.progress_state = crate::min_i64(
                self.progress_state,
                synth.recipe.difficulty as i64 - 1,
            );
            if count <= 1 && self.progress_state != synth.recipe.difficulty as i64 - 1 {
                self.wasted_actions = crate::add_sat(self.wasted_actions, 10);
            }
        }

        if details.quality_percent > 0 && self.effects.count_downs.get(
            Action::GreatStrides,
        ).is_some() {
            self.effects.count_downs.remove(Action::GreatStrides);
        }

        if !synth.crafter.specialist && (action == Action::HeartAndSoul || action
            == Action::CarefulObservation) {
            self.wasted_actions = crate::add_sat(self.wasted_actions, 100);
        }

        if action == Action::HeartAndSoul {
            if self.heart_and_soul_used {
                self.wasted_actions = crate::add_sat(self.wasted_actions, 100);
            }
            self.heart_and_soul_used = true;
        }

        if action == Action::CarefulObservation {
            if self.careful_observation_uses >= 3 {
                self.wasted_actions = crate::add_sat(self.wasted_actions, 10);
            }
            self.careful_observation_uses = crate::add_sat(self.careful_observation_uses, 1);
        }

        let can_only_use_on_good_or_excellent = details.on_good || details.on_excellent;
        let can_use_on_good_or_excellent = self.action == Some(Action::HeartAndSoul);
        if can_only_use_on_good_or_excellent {
            if can_use_on_good_or_excellent {
                if action == Action::TricksOfTheTrade {
                    let p = condition.p_good_or_excellent();
                    self.cp_state = crate::add_sat(self.cp_state, 20 * p / 10000);
                }
            } else {
                self.wasted_actions = crate::add_sat(self.wasted_actions, 100);
            }
        }
    }
}

} // verus!

verus! {

// ---------------------------------------------------------------------------
// Phase C: countdown / countup bookkeeping
// ---------------------------------------------------------------------------
/// Phase C of a transition: every countdown loses a turn, Inner Quiet
/// stacks grow (capped at 9), and the action's own effect entry is
/// installed. `sp` is the effective success probability in percent.
pub open spec fn spec_counters(m: StateModel, a: Action, sp: int, p_bp: int) -> StateModel {
    let d = spec_details(a);
    let cds1 = spec_tick(m.count_downs);
    let iq_present = seq_get(m.count_ups, Action::InnerQuiet) is Some;
    // Inner Quiet grows by 2 for Preparatory Touch, by the expected
    // Good-or-Excellent gain for Precise Touch, and by the success chance
    // for any other quality action except Reflect and Trained Finesse.
    let ups1 = spec_counters_ups1(m, a, sp, p_bp);
    // Cap the stacks at 9.
    let ups2 = if iq_present {
        match seq_get(ups1, Action::InnerQuiet) {
            Some(v) => spec_insert(ups1, Action::InnerQuiet, min_int(v as int, 9) as i8),
            None => ups1,
        }
    } else {
        ups1
    };
    // Install the action's own effect entry; a late Muscle Memory is wasted
    // instead of installed.
    let ups3 = if d.action_type == ActionType::CountUp {
        spec_insert(ups2, a, 0)
    } else {
        ups2
    };
    let mm_late = a == Action::MuscleMemory && m.step != 1;
    let cds2 = match d.action_type {
        ActionType::Countdown { active_turns } => if mm_late {
            cds1
        } else {
            spec_insert(cds1, a, active_turns)
        },
        _ => cds1,
    };
    let w1 = match d.action_type {
        ActionType::Countdown { active_turns } => if mm_late {
            crate::sat64(m.wasted_actions + 1)
        } else {
            m.wasted_actions
        },
        _ => m.wasted_actions,
    };
    StateModel { count_downs: cds2, count_ups: ups3, wasted_actions: w1, ..m }
}

// ---------------------------------------------------------------------------
// The condition expectation multiplier
// ---------------------------------------------------------------------------
/// `base ^ n` in basis points, floored at each multiplication.
pub open spec fn spec_pow_bp(base: int, n: int) -> int
    decreases (if n > 0 {
        n
    } else {
        0
    }),
{
    if n <= 0 {
        10000
    } else {
        spec_pow_bp(base, n - 1) * base / 10000
    }
}

/// Expected quality multiplier over the condition distribution, in basis
/// points: `normal + 1.5 * good * (1 - (good + P_good)/2)^max_trick_uses
/// + 4 * excellent + 0.5 * poor`; exactly 1 while conditions are ignored.
pub open spec fn spec_cond_quality_mult(cond: SimulationCondition, synth: Synth) -> int {
    if cond.ignore_condition {
        10000
    } else {
        let pg100 = spec_prob_good_percent(synth) * 100;
        let base = 10000 - (cond.pp_good + pg100) / 2;
        let powt = spec_pow_bp(base, synth.max_trick_uses as int);
        cond.pp_normal + 15 * cond.pp_good * powt / 100000 + 4 * cond.pp_excellent + 5
            * cond.pp_poor / 10
    }
}

/// Compute the condition expectation multiplier.
fn cond_quality_mult(cond: &SimulationCondition, synth: &Synth) -> (r: i64)
    requires
        cond.wf(),
    ensures
        r as int == spec_cond_quality_mult(*cond, *synth),
        0 <= r <= 70000,
{
    if cond.ignore_condition {
        10000
    } else {
        let pg100: i64 = synth.prob_good_for_synth() as i64 * 100;
        let base: i64 = 10000 - (cond.pp_good + pg100) / 2;
        let n: i32 = synth.max_trick_uses;
        let mut powt: i64 = 10000;
        let mut i: i32 = 0;
        if n > 0 {
            while i < n
                invariant
                    0 <= i <= n,
                    powt as int == spec_pow_bp(base as int, i as int),
                    0 <= powt <= 10000,
                    0 <= base <= 10000,
                decreases n - i,
            {
                proof {
                    lemma_mul_le(powt as int, 10000, base as int, 10000);
                    lemma_div_bound(powt as int * base as int, 10000, 10000);
                }
                powt = powt * base / 10000;
                i = i + 1;
            }
        }
        proof {
            lemma_mul_le(15 * cond.pp_good as int, 150000, powt as int, 10000);
            lemma_div_bound(15 * cond.pp_good as int * powt as int, 100000, 15000);
        }
        cond.pp_normal + 15 * cond.pp_good * powt / 100000 + 4 * cond.pp_excellent + 5
            * cond.pp_poor / 10
    }
}

// ---------------------------------------------------------------------------
// Phase D: resource commit, and the whole transition
// ---------------------------------------------------------------------------
/// Phase D: commit the gains and costs, then run phases B and C, then clamp
/// durability to the recipe's maximum and CP to the crafter's pool.
pub open spec fn spec_update_state(
    m: StateModel,
    synth: Synth,
    a: Action,
    progress_gain: int,
    quality_gain: int,
    durability_cost: int,
    cp_cost: int,
    sp: int,
    p_bp: int,
) -> StateModel {
    let m1 = StateModel {
        progress_state: crate::sat64(m.progress_state + progress_gain),
        quality_state: crate::sat64(m.quality_state + quality_gain),
        durability_state: crate::sat64(m.durability_state - durability_cost),
        cp_state: crate::sat64(m.cp_state - cp_cost),
        last_step: crate::sat64(m.last_step + 1),
        ..m
    };
    let m2 = spec_special(m1, synth, a, p_bp);
    let m3 = spec_counters(m2, a, sp, p_bp);
    StateModel {
        durability_state: min_int(m3.durability_state, synth.recipe.durability as int),
        cp_state: min_int(
            m3.cp_state,
            crate::sat64(synth.crafter.craft_points as int + m3.bonus_max_cp),
        ),
        ..m3
    }
}

/// One whole transition: advance the step (except for the free Careful
/// Observation), compute the modifiers, scale the gains by the success
/// chance and the condition expectation, and commit.
pub open spec fn spec_apply(m: StateModel, synth: Synth, cond: SimulationCondition, a: Action)
    -> StateModel {
    let p_bp = cond.spec_p_good_or_excellent();
    let cqm = spec_cond_quality_mult(cond, synth);
    let m1 = StateModel {
        step: if a == Action::CarefulObservation {
            m.step
        } else {
            m.step + 1
        },
        ..m
    };
    let (m2, r) = spec_modifiers(m1, synth, a, p_bp);
    let rel = if r.progress_gain > 0 {
        m2.reliability * r.success_percent as int / 100
    } else {
        m2.reliability
    };
    let m3 = StateModel {
        base_progress_gain: r.progress_gain as int,
        base_quality_gain: r.quality_gain as int,
        reliability: rel,
        ..m2
    };
    let pg = r.success_percent as int * r.progress_gain as int / 100;
    let qg = r.success_percent as int * (cqm * r.quality_gain as int / 10000) / 100;
    let m4 = spec_update_state(
        m3,
        synth,
        a,
        pg,
        qg,
        r.durability_cost as int,
        r.cp_cost as int,
        r.success_percent as int,
        p_bp,
    );
    StateModel { action: Some(a), ..m4 }
}

} // verus!

verus! {

// ---------------------------------------------------------------------------
// Invariant preservation
// ---------------------------------------------------------------------------
/// The base gains are non-negative and clamped to the `u32` range.
pub proof fn lemma_base_bounds(synth: Synth, eff: u32, stat: u32)
    requires
        synth.wf(),
    ensures
        0 <= spec_base_progress(synth, eff, stat) <= u32::MAX,
        0 <= spec_base_quality(synth, eff, stat) <= u32::MAX,
{
    let c10 = stat as int * 10;
    let pd = synth.recipe.progress_divider as int;
    let qd = synth.recipe.quality_divider as int;
    let pm = match synth.recipe.progress_modifier {
        Some(m) => m as int,
        None => 100,
    };
    let qm = match synth.recipe.quality_modifier {
        Some(m) => m as int,
        None => 100,
    };
    assert(0 <= ((c10 + 2 * pd) * pm) / (pd * 100) && 0 <= (c10 + 2 * pd) / pd && 0 <= ((c10 + 35
        * qd) * qm) / (qd * 100) && 0 <= (c10 + 35 * qd) / qd) by (nonlinear_arith)
        requires
            0 <= c10,
            1 <= pd,
            1 <= qd,
            0 <= pm,
            0 <= qm,
    ;
}

/// Bounds on the outcome of phase A, used by the overflow arguments of the
/// commit.
pub proof fn lemma_modifier_result_bounds(m: StateModel, synth: Synth, a: Action, p_bp: int)
    requires
        wf_model(m),
        synth.wf(),
        0 <= p_bp <= 10000,
    ensures
        ({
            let r = spec_modifiers(m, synth, a, p_bp).1;
            &&& 0 <= r.success_percent <= 100
            &&& 0 <= r.progress_gain <= 0x100_0000_0000
            &&& 0 <= r.quality_gain <= 0x100_0000_0000
            &&& 0 <= r.durability_cost <= 20
            &&& 0 <= r.cp_cost <= 250
        }),
{
    lemma_details_bounds(a);
    lemma_base_bounds(synth, spec_level_table_lookup(synth.crafter.level), synth.crafter.craftsmanship);
    lemma_base_bounds(synth, spec_level_table_lookup(synth.crafter.level), synth.crafter.control);
    lemma_get_within(m.count_ups, Action::InnerQuiet, -1, 9);
    let d = spec_details(a);
    // Progress gain bound.
    let bp = spec_base_progress(
        synth,
        spec_level_table_lookup(synth.crafter.level),
        synth.crafter.craftsmanship,
    );
    lemma_mul_le(bp, u32::MAX as int, d.progress_percent as int, 500);
    lemma_mul_le(bp * d.progress_percent as int, u32::MAX as int * 500, spec_progress_mult(m, a), 250);
    lemma_div_bound(
        bp * d.progress_percent as int * spec_progress_mult(m, a),
        10000,
        u32::MAX as int * 13,
    );
    let pg1 = bp * d.progress_percent as int * spec_progress_mult(m, a) / 10000;
    assert(0 <= spec_progress_gain(m, synth, a) <= u32::MAX as int * 13) by {
        if m.durability_state < spec_durability_cost(m, a) && (a == Action::Groundwork || a
            == Action::Groundwork2) {
            lemma_div_bound(pg1, 2, u32::MAX as int * 13);
            lemma_div_bound(0, 2, u32::MAX as int * 13);
        }
    }
    // Quality gain bound.
    let bq = spec_base_quality(
        synth,
        spec_level_table_lookup(synth.crafter.level),
        synth.crafter.control,
    );
    lemma_mul_le(bq, u32::MAX as int, d.quality_percent as int, 200);
    lemma_div_bound(bq * d.quality_percent as int, 100, u32::MAX as int * 2);
    let qg1 = bq * d.quality_percent as int / 100;
    assert(0 <= spec_quality_mult(m, a) <= 1000) by {
        if a == Action::ByregotsBlessing && spec_iq_count(m.count_ups) >= 1 {
            let base = (if cd_has(m.count_downs, Action::GreatStrides) {
                200int
            } else {
                100int
            }) + (if cd_has(m.count_downs, Action::Innovation) {
                50int
            } else {
                0int
            });
            lemma_mul_le(base, 250, 100 + min_int(300, 20 * (spec_iq_count(m.count_ups) + 1)), 400);
            lemma_div_bound(base * (100 + min_int(300, 20 * (spec_iq_count(m.count_ups) + 1))), 100, 1000);
        }
    }
    lemma_mul_le(qg1, u32::MAX as int * 2, spec_quality_mult(m, a), 1000);
    lemma_div_bound(qg1 * spec_quality_mult(m, a), 100, u32::MAX as int * 20);
    let qg2 = qg1 * spec_quality_mult(m, a) / 100;
    lemma_mul_le(qg2, u32::MAX as int * 20, spec_iq_mult(m), 200);
    lemma_div_bound(qg2 * spec_iq_mult(m), 100, u32::MAX as int * 40);
    let qg3 = qg2 * spec_iq_mult(m) / 100;
    assert(0 <= spec_quality_gain(m, synth, a, p_bp) <= u32::MAX as int * 40) by {
        if a == Action::PreciseTouch {
            lemma_mul_le(
                if a == Action::TrainedEye {
                    if spec_trained_eye_ok(m, synth) {
                        synth.recipe.max_quality as int
                    } else {
                        0
                    }
                } else if spec_waste_not_active(m) && a == Action::PrudentTouch {
                    0
                } else if a == Action::TrainedFinesse && spec_iq_count(m.count_ups) != 9 {
                    0
                } else {
                    qg3
                },
                u32::MAX as int * 40,
                p_bp / 10000,
                1,
            );
        }
    }
}

/// Phase A preserves the state invariants.
pub proof fn lemma_modifiers_wf(m: StateModel, synth: Synth, a: Action, p_bp: int)
    requires
        wf_model(m),
    ensures
        wf_model(spec_modifiers(m, synth, a, p_bp).0),
{
    if spec_mm_consumed(m, a) {
        lemma_unique_remove(m.count_downs, Action::MuscleMemory);
        lemma_remove_values(m.count_downs, Action::MuscleMemory, 1, 8);
    }
}

/// Phase B preserves the state invariants.
pub proof fn lemma_special_wf(m: StateModel, synth: Synth, a: Action, p_bp: int)
    requires
        wf_model(m),
    ensures
        wf_model(spec_special(m, synth, a, p_bp)),
{
    let iq_present = seq_get(m.count_ups, Action::InnerQuiet) is Some;
    let ups1 = if a == Action::ByregotsBlessing && iq_present {
        spec_remove(m.count_ups, Action::InnerQuiet)
    } else {
        m.count_ups
    };
    if a == Action::ByregotsBlessing && iq_present {
        lemma_unique_remove(m.count_ups, Action::InnerQuiet);
        lemma_remove_values(m.count_ups, Action::InnerQuiet, -1, 9);
    }
    if a == Action::Reflect && m.step == 1 {
        if iq_present {
            lemma_unique_insert(ups1, Action::InnerQuiet, 1);
            lemma_insert_values(ups1, Action::InnerQuiet, 1, -1, 9);
        } else {
            lemma_unique_insert(ups1, Action::InnerQuiet, 0);
            lemma_insert_values(ups1, Action::InnerQuiet, 0, -1, 9);
        }
    }
    if spec_details(a).quality_percent > 0 && cd_has(m.count_downs, Action::GreatStrides) {
        lemma_unique_remove(m.count_downs, Action::GreatStrides);
        lemma_remove_values(m.count_downs, Action::GreatStrides, 1, 8);
    }
}

/// Phase C preserves the state invariants.
pub proof fn lemma_counters_wf(m: StateModel, a: Action, sp: int, p_bp: int)
    requires
        wf_model(m),
        0 <= sp <= 100,
        0 <= p_bp <= 10000,
    ensures
        wf_model(spec_counters(m, a, sp, p_bp)),
{
    lemma_details_bounds(a);
    lemma_get_within(m.count_ups, Action::InnerQuiet, -1, 9);
    let d = spec_details(a);
    let cds1 = spec_tick(m.count_downs);
    lemma_unique_tick(m.count_downs);
    lemma_tick_values(m.count_downs, 8);
    let iq_present = seq_get(m.count_ups, Action::InnerQuiet) is Some;
    // The bumped store stays unique, and every key but Inner Quiet keeps its
    // value; the cap brings Inner Quiet itself back into range.
    let ups1 = spec_counters_ups1(m, a, sp, p_bp);
    assert(keys_unique(ups1) && values_within(ups1, -1, 11) && (iq_present ==> seq_get(
        ups1,
        Action::InnerQuiet,
    ) is Some)) by {
        if iq_present {
            let v = seq_get(m.count_ups, Action::InnerQuiet)->Some_0;
            if a == Action::PreciseTouch {
                lemma_mul_le(2 * sp, 200, p_bp, 10000);
                lemma_div_bound(2 * sp * p_bp, 1000000, 2);
            }
            if ups1 != m.count_ups {
                let k = spec_counters_bump(m, a, sp, p_bp);
                assert(0 <= k <= 2);
                lemma_unique_insert(m.count_ups, Action::InnerQuiet, (v + k) as i8);
                lemma_insert_values(m.count_ups, Action::InnerQuiet, (v + k) as i8, -1, 11);
                lemma_get_insert(m.count_ups, Action::InnerQuiet, (v + k) as i8, Action::InnerQuiet);
            }
        }
    }
    let ups2 = if iq_present {
        match seq_get(ups1, Action::InnerQuiet) {
            Some(v) => spec_insert(ups1, Action::InnerQuiet, min_int(v as int, 9) as i8),
            None => ups1,
        }
    } else {
        ups1
    };
    assert(keys_unique(ups2) && values_within(ups2, -1, 9)) by {
        if iq_present {
            let v1 = seq_get(ups1, Action::InnerQuiet)->Some_0;
            lemma_get_within(ups1, Action::InnerQuiet, -1, 11);
            lemma_unique_insert(ups1, Action::InnerQuiet, min_int(v1 as int, 9) as i8);
            assert forall|b: Action| match #[trigger] seq_get(ups2, b) {
                Some(v) => -1 <= v <= 9,
                None => true,
            } by {
                lemma_get_insert(ups1, Action::InnerQuiet, min_int(v1 as int, 9) as i8, b);
                if b != Action::InnerQuiet {
                    if iq_present && ups1 != m.count_ups {
                        let v = seq_get(m.count_ups, Action::InnerQuiet)->Some_0;
                        let k = spec_counters_bump(m, a, sp, p_bp);
                        lemma_get_insert(m.count_ups, Action::InnerQuiet, (v + k) as i8, b);
                    }
                    lemma_get_within(m.count_ups, b, -1, 9);
                }
            }
            lemma_values_from_get(ups2, -1, 9);
        }
    }
    if d.action_type == ActionType::CountUp {
        lemma_unique_insert(ups2, a, 0);
        lemma_insert_values(ups2, a, 0, -1, 9);
    }
    match d.action_type {
        ActionType::Countdown { active_turns } => {
            if !(a == Action::MuscleMemory && m.step != 1) {
                lemma_unique_insert(cds1, a, active_turns);
                lemma_tick_values(m.count_downs, 8);
                assert(values_within(cds1, 1, 8)) by {
                    assert forall|i: int| 0 <= i < cds1.len() implies 1 <= (#[trigger] cds1[i]).1
                        <= 8 by {}
                }
                lemma_insert_values(cds1, a, active_turns, 1, 8);
            }
        },
        _ => {},
    }
}

/// The Inner Quiet increment of phase C.
pub open spec fn spec_counters_bump(m: StateModel, a: Action, sp: int, p_bp: int) -> int {
    if a == Action::PreparatoryTouch {
        2
    } else if a == Action::PreciseTouch {
        2 * sp * p_bp / 1000000
    } else {
        sp / 100
    }
}

/// The count-up store of phase C after the growth step.
pub open spec fn spec_counters_ups1(m: StateModel, a: Action, sp: int, p_bp: int) -> Seq<
    (Action, i8),
> {
    let d = spec_details(a);
    let iq_present = seq_get(m.count_ups, Action::InnerQuiet) is Some;
    if iq_present {
        if a == Action::PreparatoryTouch {
            match seq_get(m.count_ups, Action::InnerQuiet) {
                Some(v) => spec_insert(m.count_ups, Action::InnerQuiet, (v + 2) as i8),
                None => m.count_ups,
            }
        } else if a == Action::PreciseTouch {
            let k = 2 * sp * p_bp / 1000000;
            match seq_get(m.count_ups, Action::InnerQuiet) {
                Some(v) => spec_insert(m.count_ups, Action::InnerQuiet, (v + k) as i8),
                None => m.count_ups,
            }
        } else if d.quality_percent > 0 && a != Action::Reflect && a != Action::TrainedFinesse {
            let k = sp / 100;
            match seq_get(m.count_ups, Action::InnerQuiet) {
                Some(v) => spec_insert(m.count_ups, Action::InnerQuiet, (v + k) as i8),
                None => m.count_ups,
            }
        } else {
            m.count_ups
        }
    } else {
        m.count_ups
    }
}

} // verus!

verus! {

impl State {
    /// Phase C: tick the countdowns, grow Inner Quiet, install the action's
    /// own effect entry.
    #[verifier::rlimit(100)]
    fn update_effects_counters(
        &mut self,
        action: Action,
        condition: &SimulationCondition,
        success_percent: i64,
    ) -> (r: ())
        requires
            old(self).wf(),
            condition.wf(),
            0 <= success_percent <= 100,
        ensures
            final(self).model() == spec_counters(
                old(self).model(),
                action,
                success_percent as int,
                condition.spec_p_good_or_excellent(),
            ),
    {
        let ghost m = old(self).model();
        proof {
            lemma_details_bounds(action);
            lemma_get_within(m.count_ups, Action::InnerQuiet, -1, 9);
        }
        let details = action.details();
        self.effects.count_downs.tick_down();
        let iq_present = self.effects.count_ups.get(Action::InnerQuiet).is_some();
        if iq_present {
            if action == Action::PreparatoryTouch {
                if let Some(quiet) = self.effects.count_ups.get(Action::InnerQuiet) {
                    self.effects.count_ups.insert(Action::InnerQuiet, quiet + 2);
                }
            } else if action == Action::PreciseTouch {
                let p = condition.p_good_or_excellent();
                proof {
                    lemma_mul_le(2 * success_percent as int, 200, p as int, 10000);
                    lemma_div_bound(2 * success_percent as int * p as int, 1000000, 2);
                }
                let quiet_increment: i64 = 2 * success_percent * p / 1000000;
                if let Some(quiet) = self.effects.count_ups.get(Action::InnerQuiet) {
                    self.effects.count_ups.insert(
                        Action::InnerQuiet,
                        quiet + quiet_increment as i8,
                    );
                }
            } else if details.quality_percent > 0 && action != Action::Reflect && action
                != Action::TrainedFinesse {
                let quiet_increment: i64 = success_percent / 100;
                if let Some(quiet) = self.effects.count_ups.get(Action::InnerQuiet) {
                    self.effects.count_ups.insert(
                        Action::InnerQuiet,
                        quiet + quiet_increment as i8,
                    );
                }
            }
            proof {
                if self.effects.count_ups@ != m.count_ups {
                    let v = seq_get(m.count_ups, Action::InnerQuiet)->Some_0;
                    let k = spec_counters_bump(
                        m,
                        action,
                        success_percent as int,
                        condition.spec_p_good_or_excellent(),
                    );
                    lemma_get_insert(
                        m.count_ups,
                        Action::InnerQuiet,
                        (v + k) as i8,
                        Action::InnerQuiet,
                    );
                }
            }
            if let Some(quiet) = self.effects.count_ups.get(Action::InnerQuiet) {
                let capped: i8 = if quiet > 9 {
                    9
                } else {
                    quiet
                };
                self.effects.count_ups.insert(Action::InnerQuiet, capped);
            }
        }
        if details.action_type == ActionType::CountUp {
            self.effects.count_ups.insert(action, 0);
        }
        if let ActionType::Countdown { active_turns } = details.action_type {
            if action == Action::MuscleMemory && self.step != 1 {
                self.wasted_actions = crate::add_sat(self.wasted_actions, 1);
            } else {
                self.effects.count_downs.insert(action, active_turns);
            }
        }
    }

    /// Phase D: commit the gains and costs, run phases B and C, clamp
    /// durability and CP to their ceilings.
    fn update_state(
        &mut self,
        synth: &Synth,
        action: Action,
        progress_gain: i64,
        quality_gain: i64,
        durability_cost: i64,
        cp_cost: i64,
        condition: &SimulationCondition,
        success_percent: i64,
    ) -> (r: ())
        requires
            old(self).wf(),
            synth.wf(),
            condition.wf(),
            0 <= success_percent <= 100,
        ensures
            final(self).model() == spec_update_state(
                old(self).model(),
                *synth,
                action,
                progress_gain as int,
                quality_gain as int,
                durability_cost as int,
                cp_cost as int,
                success_percent as int,
                condition.spec_p_good_or_excellent(),
            ),
            final(self).wf(),
    {
        let ghost m = old(self).model();
        let ghost p_bp = condition.spec_p_good_or_excellent();
        self.progress_state = crate::add_sat(self.progress_state, progress_gain);
        self.quality_state = crate::add_sat(self.quality_state, quality_gain);
        self.durability_state = crate::sub_sat(self.durability_state, durability_cost);
        self.cp_state = crate::sub_sat(self.cp_state, cp_cost);
        self.last_step = crate::add_sat(self.last_step, 1);
        let ghost m1 = self.model();
        self.apply_special_action_effects(synth, action, condition);
        proof {
            lemma_special_wf(m1, *synth, action, p_bp);
        }
        self.update_effects_counters(action, condition, success_percent);
        proof {
            lemma_counters_wf(
                spec_special(m1, *synth, action, p_bp),
                action,
                success_percent as int,
                p_bp,
            );
        }
        self.durability_state = crate::min_i64(
            self.durability_state,
            synth.recipe.durability as i64,
        );
        self.cp_state = crate::min_i64(
            self.cp_state,
            crate::add_sat(synth.crafter.craft_points as i64, self.bonus_max_cp),
        );
    }

    /// Apply `action` to this state and return the successor; the state
    /// itself is never mutated. The step count advances by one, except for
    /// Careful Observation, which is a free observation.
    pub fn add_action(
        &self,
        synth: &Synth,
        action: Action,
        sim_condition: &mut SimulationCondition,
    ) -> (r: State)
        requires
            self.wf(),
            synth.wf(),
            old(sim_condition).wf(),
            self.step < i64::MAX,
        ensures
            r.model() == spec_apply(self.model(), *synth, *old(sim_condition), action),
            r.wf(),
            *final(sim_condition) == old(sim_condition).spec_update(
                spec_prob_good_percent(*synth),
                spec_prob_excellent_percent(*synth),
            ),
            final(sim_condition).wf(),
    {
        let ghost p_bp = old(sim_condition).spec_p_good_or_excellent();
        let mut state = self.duplicate();
        if action != Action::CarefulObservation {
            state.step = state.step + 1;
        }
        let ghost m1 = state.model();
        let p_good = synth.prob_good_for_synth();
        let p_excellent = synth.prob_excellent_for_synth();
        let condition_quality_mult = cond_quality_mult(sim_condition, synth);
        let result = state.apply_modifiers(synth, action, sim_condition);
        proof {
            lemma_modifiers_wf(m1, *synth, action, p_bp);
            lemma_modifier_result_bounds(m1, *synth, action, p_bp);
        }
        state.base_quality_gain = result.quality_gain;
        state.base_progress_gain = result.progress_gain;
        let success_percent = result.success_percent;
        if result.progress_gain > 0 {
            proof {
                lemma_mul_le(
                    state.reliability as int,
                    i64::MAX as int,
                    success_percent as int,
                    100,
                );
                lemma_div_bound(
                    state.reliability as int * success_percent as int,
                    100,
                    i64::MAX as int,
                );
            }
            state.reliability = ((state.reliability as u128 * success_percent as u128)
                / 100) as i64;
        }
        proof {
            lemma_mul_le(success_percent as int, 100, result.progress_gain as int, 0x100_0000_0000);
            lemma_mul_le(
                condition_quality_mult as int,
                70000,
                result.quality_gain as int,
                0x100_0000_0000,
            );
            lemma_div_bound(
                condition_quality_mult as int * result.quality_gain as int,
                10000,
                70000int * 0x100_0000_0000,
            );
            lemma_mul_le(
                success_percent as int,
                100,
                condition_quality_mult as int * result.quality_gain as int / 10000,
                70000int * 0x100_0000_0000,
            );
        }
        let progress_gain: i64 = success_percent * result.progress_gain / 100;
        let scaled_quality: i64 = condition_quality_mult * result.quality_gain / 10000;
        let quality_gain: i64 = success_percent * scaled_quality / 100;
        state.update_state(
            synth,
            action,
            progress_gain,
            quality_gain,
            result.durability_cost,
            result.cp_cost,
            sim_condition,
            success_percent,
        );
        sim_condition.update(p_good, p_excellent);
        state.action = Some(action);
        state
    }
}

} // verus!

verus! {

// ---------------------------------------------------------------------------
// Violations and penalties
// ---------------------------------------------------------------------------
/// The terminal checks of a state: progress reached, CP and durability not
/// overdrawn (a finish at durability `>= -5` is allowed when the last
/// action's base durability cost is 10), tricks within budget, and
/// reliability above `reliability_percent / 100`.
pub open spec fn spec_violations(m: StateModel, synth: Synth) -> Violations {
    Violations {
        progress_ok: m.progress_state >= synth.recipe.difficulty as int,
        cp_ok: m.cp_state >= 0,
        durability_ok: m.durability_state >= 0 || (m.durability_state >= -5 && match m.action {
            Some(a) => spec_details(a).durability_cost == 10,
            None => false,
        }),
        trick_ok: m.trick_uses <= synth.max_trick_uses as int,
        reliability_ok: m.reliability > synth.reliability_percent as int / 100,
    }
}

/// Penalty mass of a state, scaled by `penalty_weight`:
/// `wasted * weight / 20` plus the absolute deficit of every failed check
/// times the weight, saturated into the `i64` range.
pub open spec fn spec_penalties(m: StateModel, synth: Synth, penalty_weight: int) -> int {
    let v = spec_violations(m, synth);
    let p0 = m.wasted_actions * penalty_weight / 20;
    let p1 = p0 + if !v.durability_ok {
        (if m.durability_state < 0 {
            -m.durability_state
        } else {
            m.durability_state
        }) * penalty_weight
    } else {
        0
    };
    let p2 = p1 + if !v.progress_ok {
        (synth.recipe.difficulty as int - m.progress_state) * penalty_weight
    } else {
        0
    };
    let p3 = p2 + if !v.cp_ok {
        -m.cp_state * penalty_weight
    } else {
        0
    };
    let p4 = p3 + if m.trick_uses > synth.max_trick_uses as int {
        (m.trick_uses - synth.max_trick_uses as int) * penalty_weight
    } else {
        0
    };
    let p5 = p4 + if m.reliability < synth.reliability_percent as int / 100 {
        (synth.reliability_percent as int / 100 - m.reliability) * penalty_weight
    } else {
        0
    };
    crate::sat64(p5)
}

impl State {
    /// Which terminal checks this state passes.
    pub fn check_violations(&self, synth: &Synth) -> (r: Violations)
        ensures
            r == spec_violations(self.model(), *synth),
    {
        let progress_ok = self.progress_state >= synth.recipe.difficulty as i64;
        let cp_ok = self.cp_state >= 0;
        let mut durability_ok = false;
        if self.durability_state >= -5 {
            if let Some(action) = self.action {
                let details = action.details();
                if details.durability_cost == 10 || self.durability_state >= 0 {
                    durability_ok = true;
                }
            }
            if self.durability_state >= 0 {
                durability_ok = true;
            }
        }
        let trick_ok = self.trick_uses <= synth.max_trick_uses as i64;
        let reliability_ok = self.reliability > (synth.reliability_percent / 100) as i64;
        Violations { progress_ok, cp_ok, durability_ok, trick_ok, reliability_ok }
    }

    /// The penalty mass of this state, scaled by `penalty_weight`.
    pub fn calculate_penalties(&self, synth: &Synth, penalty_weight: i64) -> (r: i64)
        requires
            self.wf(),
            0 <= penalty_weight <= u32::MAX,
        ensures
            r as int == spec_penalties(self.model(), *synth, penalty_weight as int),
    {
        let violations = self.check_violations(synth);
        let w: i128 = penalty_weight as i128;
        proof {
            lemma_i128_small(self.wasted_actions as int, penalty_weight as int);
        }
        let mut penalties: i128 = self.wasted_actions as i128 * w / 20;
        if !violations.durability_ok {
            let deficit: i128 = if self.durability_state < 0 {
                -(self.durability_state as i128)
            } else {
                self.durability_state as i128
            };
            proof {
                lemma_i128_small(
                    if self.durability_state < 0 {
                        -(self.durability_state as int)
                    } else {
                        self.durability_state as int
                    },
                    penalty_weight as int,
                );
            }
            penalties = penalties + deficit * w;
        }
        if !violations.progress_ok {
            proof {
                lemma_i128_small(
                    synth.recipe.difficulty as int - self.progress_state as int,
                    penalty_weight as int,
                );
            }
            penalties = penalties + (synth.recipe.difficulty as i128
                - self.progress_state as i128) * w;
        }
        if !violations.cp_ok {
            proof {
                lemma_i128_small(-(self.cp_state as int), penalty_weight as int);
            }
            penalties = penalties + (-(self.cp_state as i128)) * w;
        }
        if self.trick_uses > synth.max_trick_uses as i64 {
            proof {
                lemma_i128_small(
                    self.trick_uses as int - synth.max_trick_uses as int,
                    penalty_weight as int,
                );
            }
            penalties = penalties + (self.trick_uses as i128 - synth.max_trick_uses as i128) * w;
        }
        let reliability_floor: i64 = (synth.reliability_percent / 100) as i64;
        if self.reliability < reliability_floor {
            proof {
                lemma_i128_small(
                    reliability_floor as int - self.reliability as int,
                    penalty_weight as int,
                );
            }
            penalties = penalties + (reliability_floor as i128 - self.reliability as i128) * w;
        }
        clamp_i128(penalties)
    }
}

/// A product of an `i64`-range factor and a `u32`-range weight stays well
/// inside the `i128` range.
proof fn lemma_i128_small(x: int, w: int)
    by (nonlinear_arith)
    requires
        -0x8_0000_0000_0000_0000_0 <= x <= 0x8_0000_0000_0000_0000_0,
        0 <= w <= 0xffff_ffff,
    ensures
        -0x1_0000_0000_0000_0000_0000_0000_0000 <= x * w <= 0x1_0000_0000_0000_0000_0000_0000_0000,
        x >= 0 ==> x * w >= 0,
        x >= 0 ==> x * w / 20 <= x * w,
        x >= 0 ==> x * w / 20 >= 0,
{
}

/// Saturate an `i128` into the `i64` range.
fn clamp_i128(x: i128) -> (r: i64)
    ensures
        r as int == crate::sat64(x as int),
{
    if x > i64::MAX as i128 {
        i64::MAX
    } else if x < i64::MIN as i128 {
        i64::MIN
    } else {
        x as i64
    }
}

} // verus!

verus! {

/// All numeric fields of a model lie in the `i64` range; true of the model
/// of every machine state.
pub open spec fn model_fits(m: StateModel) -> bool {
    &&& i64::MIN <= m.step <= i64::MAX
    &&& i64::MIN <= m.last_step <= i64::MAX
    &&& i64::MIN <= m.durability_state <= i64::MAX
    &&& i64::MIN <= m.cp_state <= i64::MAX
    &&& i64::MIN <= m.bonus_max_cp <= i64::MAX
    &&& i64::MIN <= m.quality_state <= i64::MAX
    &&& i64::MIN <= m.progress_state <= i64::MAX
    &&& i64::MIN <= m.wasted_actions <= i64::MAX
    &&& i64::MIN <= m.trick_uses <= i64::MAX
    &&& i64::MIN <= m.reliability <= i64::MAX
    &&& i64::MIN <= m.careful_observation_uses <= i64::MAX
}

impl State {
    /// The model of a machine state fits in machine integers.
    pub proof fn lemma_model_fits(&self)
        ensures
            model_fits(self.model()),
    {
    }
}

} // verus!
