//! The transition system's laws: invariants of every `add_action` step and
//! the boundary behaviors of the special actions, stated over the
//! mathematical model and proved once.
use vstd::prelude::*;

use crate::actions::{spec_details, Action};
use crate::effects::{
    lemma_get_none_no_key, lemma_get_remove, lemma_unique_tick, seq_get, values_within,
};
use crate::genome::{
    spec_decode, spec_decode_gene, spec_fold_actions, spec_fold_genome,
};
use crate::model::{
    lemma_counters_wf, lemma_details_bounds, lemma_modifier_result_bounds, lemma_modifiers_wf,
    lemma_special_wf, min_int, model_fits, spec_apply, spec_cond_quality_mult,
    spec_durability_cost, spec_iq_count, spec_modifiers, spec_pow_bp, spec_prob_excellent_percent,
    spec_prob_good_percent, spec_progress_gain, spec_progress_gain_full, spec_quality_gain,
    spec_quality_mult, spec_special, SimulationCondition, StateModel, Synth,
};
use crate::model::{cd_has, wf_model};

verus! {

/// `base ^ n` in basis points stays a probability weight.
pub proof fn lemma_pow_bp_bounds(base: int, n: int)
    requires
        0 <= base <= 10000,
    ensures
        0 <= spec_pow_bp(base, n) <= 10000,
    decreases (if n > 0 {
        n
    } else {
        0
    }),
{
    if n > 0 {
        lemma_pow_bp_bounds(base, n - 1);
        assert(0 <= spec_pow_bp(base, n - 1) * base <= 10000 * 10000 && spec_pow_bp(base, n - 1)
            * base / 10000 <= 10000 && spec_pow_bp(base, n - 1) * base / 10000 >= 0)
            by (nonlinear_arith)
            requires
                0 <= spec_pow_bp(base, n - 1) <= 10000,
                0 <= base <= 10000,
        ;
    }
}

/// The condition expectation multiplier is a bounded non-negative weight.
pub proof fn lemma_cond_quality_mult_bounds(cond: SimulationCondition, synth: Synth)
    requires
        cond.wf(),
    ensures
        0 <= spec_cond_quality_mult(cond, synth) <= 70000,
{
    if !cond.ignore_condition {
        let pg100 = spec_prob_good_percent(synth) * 100;
        let base = 10000 - (cond.pp_good + pg100) / 2;
        lemma_pow_bp_bounds(base, synth.max_trick_uses as int);
        let powt = spec_pow_bp(base, synth.max_trick_uses as int);
        assert(0 <= 15 * cond.pp_good * powt / 100000 <= 15000) by (nonlinear_arith)
            requires
                0 <= cond.pp_good <= 10000,
                0 <= powt <= 10000,
        ;
    }
}

/// The gains an action commits are never negative.
proof fn lemma_apply_gains_nonneg(m1: StateModel, synth: Synth, cond: SimulationCondition, a: Action)
    requires
        wf_model(m1),
        synth.wf(),
        cond.wf(),
    ensures
        ({
            let r = spec_modifiers(m1, synth, a, cond.spec_p_good_or_excellent()).1;
            let cqm = spec_cond_quality_mult(cond, synth);
            &&& r.success_percent as int * r.progress_gain as int / 100 >= 0
            &&& r.success_percent as int * (cqm * r.quality_gain as int / 10000) / 100 >= 0
        }),
{
    let p_bp = cond.spec_p_good_or_excellent();
    let r = spec_modifiers(m1, synth, a, p_bp).1;
    let cqm = spec_cond_quality_mult(cond, synth);
    lemma_modifier_result_bounds(m1, synth, a, p_bp);
    lemma_cond_quality_mult_bounds(cond, synth);
    assert(r.success_percent as int * r.progress_gain as int / 100 >= 0 && cqm
        * r.quality_gain as int / 10000 >= 0) by (nonlinear_arith)
        requires
            0 <= r.success_percent,
            0 <= r.progress_gain,
            0 <= cqm,
            0 <= r.quality_gain,
    ;
    assert(r.success_percent as int * (cqm * r.quality_gain as int / 10000) / 100 >= 0)
        by (nonlinear_arith)
        requires
            0 <= r.success_percent,
            0 <= cqm * r.quality_gain as int / 10000,
    ;
}

/// Every transition preserves the state invariants; in particular the
/// inner-quiet stacks stay in `-1 ..= 9` and no countdown entry is ever
/// left at zero or below.
pub proof fn lemma_apply_wf(m: StateModel, synth: Synth, cond: SimulationCondition, a: Action)
    requires
        wf_model(m),
        synth.wf(),
        cond.wf(),
    ensures
        wf_model(spec_apply(m, synth, cond, a)),
{
    let p_bp = cond.spec_p_good_or_excellent();
    let m1 = StateModel {
        step: if a == Action::CarefulObservation {
            m.step
        } else {
            m.step + 1
        },
        ..m
    };
    lemma_modifiers_wf(m1, synth, a, p_bp);
    lemma_modifier_result_bounds(m1, synth, a, p_bp);
    let (m2, r) = spec_modifiers(m1, synth, a, p_bp);
    assert(m2.reliability * r.success_percent as int / 100 >= 0) by (nonlinear_arith)
        requires
            m2.reliability >= 0,
            0 <= r.success_percent,
    ;
    let m3 = StateModel {
        base_progress_gain: r.progress_gain as int,
        base_quality_gain: r.quality_gain as int,
        reliability: if r.progress_gain > 0 {
            m2.reliability * r.success_percent as int / 100
        } else {
            m2.reliability
        },
        ..m2
    };
    let pg = r.success_percent as int * r.progress_gain as int / 100;
    let qg = r.success_percent as int * (spec_cond_quality_mult(cond, synth)
        * r.quality_gain as int / 10000) / 100;
    let m3c = StateModel {
        progress_state: crate::sat64(m3.progress_state + pg),
        quality_state: crate::sat64(m3.quality_state + qg),
        durability_state: crate::sat64(m3.durability_state - r.durability_cost as int),
        cp_state: crate::sat64(m3.cp_state - r.cp_cost as int),
        last_step: crate::sat64(m3.last_step + 1),
        ..m3
    };
    lemma_special_wf(m3c, synth, a, p_bp);
    lemma_counters_wf(spec_special(m3c, synth, a, p_bp), a, r.success_percent as int, p_bp);
}

/// The step count advances by exactly one, except for Careful Observation,
/// which does not advance it.
pub proof fn lemma_step_advances(m: StateModel, synth: Synth, cond: SimulationCondition, a: Action)
    ensures
        spec_apply(m, synth, cond, a).step == if a == Action::CarefulObservation {
            m.step
        } else {
            m.step + 1
        },
{
}

/// Quality never decreases; progress never decreases while the recipe is
/// unfinished. (A Final Appraisal holds progress just short of completion,
/// so a state already at or past the difficulty is the one exception.)
pub proof fn lemma_gains_monotone(m: StateModel, synth: Synth, cond: SimulationCondition, a: Action)
    requires
        wf_model(m),
        model_fits(m),
        synth.wf(),
        cond.wf(),
    ensures
        spec_apply(m, synth, cond, a).quality_state >= m.quality_state,
        m.progress_state < synth.recipe.difficulty as int ==> spec_apply(
            m,
            synth,
            cond,
            a,
        ).progress_state >= m.progress_state,
{
    let m1 = StateModel {
        step: if a == Action::CarefulObservation {
            m.step
        } else {
            m.step + 1
        },
        ..m
    };
    lemma_apply_gains_nonneg(m1, synth, cond, a);
}

/// CP never exceeds the crafter's pool plus the bonus ceiling, and
/// durability never exceeds the recipe's maximum.
pub proof fn lemma_resource_caps(m: StateModel, synth: Synth, cond: SimulationCondition, a: Action)
    requires
        wf_model(m),
    ensures
        spec_apply(m, synth, cond, a).cp_state <= synth.crafter.craft_points as int + spec_apply(
            m,
            synth,
            cond,
            a,
        ).bonus_max_cp,
        spec_apply(m, synth, cond, a).durability_state <= synth.recipe.durability as int,
{
}

/// The inner-quiet stack count stays in `-1 ..= 9`.
pub proof fn lemma_inner_quiet_bounds(
    m: StateModel,
    synth: Synth,
    cond: SimulationCondition,
    a: Action,
)
    requires
        wf_model(m),
        synth.wf(),
        cond.wf(),
    ensures
        values_within(spec_apply(m, synth, cond, a).count_ups, -1, 9),
{
    lemma_apply_wf(m, synth, cond, a);
}

/// Every countdown entry keeps at least one remaining turn.
pub proof fn lemma_countdowns_positive(
    m: StateModel,
    synth: Synth,
    cond: SimulationCondition,
    a: Action,
)
    requires
        wf_model(m),
        synth.wf(),
        cond.wf(),
    ensures
        values_within(spec_apply(m, synth, cond, a).count_downs, 1, 8),
{
    lemma_apply_wf(m, synth, cond, a);
}

/// Reflect after the first step is wasted: no quality, a penalty instead.
pub proof fn lemma_reflect_late_wasted(m: StateModel, synth: Synth, cond: SimulationCondition)
    requires
        wf_model(m),
        model_fits(m),
        synth.wf(),
        cond.wf(),
        m.step != 0,
        m.wasted_actions <= 0x7fff_ffff_ffff_0000,
    ensures
        spec_apply(m, synth, cond, Action::Reflect).base_quality_gain == 0,
        spec_apply(m, synth, cond, Action::Reflect).quality_state == m.quality_state,
        spec_apply(m, synth, cond, Action::Reflect).wasted_actions >= m.wasted_actions + 1,
{
    let a = Action::Reflect;
    let p_bp = cond.spec_p_good_or_excellent();
    lemma_details_bounds(a);
    let m1 = StateModel { step: m.step + 1, ..m };
    let (m2, r) = spec_modifiers(m1, synth, a, p_bp);
    assert(r.quality_gain == 0);
    let cqm = spec_cond_quality_mult(cond, synth);
    let qg = r.success_percent as int * (cqm * r.quality_gain as int / 10000) / 100;
    assert(cqm * 0 == 0) by (nonlinear_arith);
    assert(qg == 0) by (nonlinear_arith)
        requires
            qg == r.success_percent as int * (cqm * r.quality_gain as int / 10000) / 100,
            r.quality_gain as int == 0,
            cqm * 0 == 0,
    ;
}

/// Muscle Memory after the first step is wasted: no progress gain and no
/// countdown entry, a penalty instead.
pub proof fn lemma_muscle_memory_late_wasted(m: StateModel, synth: Synth, cond: SimulationCondition)
    requires
        wf_model(m),
        model_fits(m),
        synth.wf(),
        cond.wf(),
        m.step != 0,
        m.wasted_actions <= 0x7fff_ffff_ffff_0000,
    ensures
        spec_apply(m, synth, cond, Action::MuscleMemory).base_progress_gain == 0,
        spec_apply(m, synth, cond, Action::MuscleMemory).wasted_actions >= m.wasted_actions + 10,
        seq_get(spec_apply(m, synth, cond, Action::MuscleMemory).count_downs, Action::MuscleMemory)
            is None,
{
    let a = Action::MuscleMemory;
    let p_bp = cond.spec_p_good_or_excellent();
    lemma_details_bounds(a);
    reveal(spec_details);
    let m1 = StateModel { step: m.step + 1, ..m };
    lemma_modifier_result_bounds(m1, synth, a, p_bp);
    let (m2, r) = spec_modifiers(m1, synth, a, p_bp);
    // After phase A the Muscle Memory countdown is gone either way.
    assert(seq_get(m2.count_downs, a) is None) by {
        if cd_has(m1.count_downs, a) {
            lemma_get_remove(m1.count_downs, a, a);
        }
    }
    // Phase B can only remove Great Strides; phase C ticks and, for a late
    // Muscle Memory, installs nothing.
    let m3 = StateModel {
        base_progress_gain: r.progress_gain as int,
        base_quality_gain: r.quality_gain as int,
        reliability: if r.progress_gain > 0 {
            m2.reliability * r.success_percent as int / 100
        } else {
            m2.reliability
        },
        ..m2
    };
    let pg = r.success_percent as int * r.progress_gain as int / 100;
    let qg = r.success_percent as int * (spec_cond_quality_mult(cond, synth)
        * r.quality_gain as int / 10000) / 100;
    let m3c = StateModel {
        progress_state: crate::sat64(m3.progress_state + pg),
        quality_state: crate::sat64(m3.quality_state + qg),
        durability_state: crate::sat64(m3.durability_state - r.durability_cost as int),
        cp_state: crate::sat64(m3.cp_state - r.cp_cost as int),
        last_step: crate::sat64(m3.last_step + 1),
        ..m3
    };
    lemma_modifiers_wf(m1, synth, a, p_bp);
    let m4 = spec_special(m3c, synth, a, p_bp);
    assert(seq_get(m4.count_downs, a) is None) by {
        if spec_details(a).quality_percent > 0 && cd_has(m3c.count_downs, Action::GreatStrides) {
            lemma_get_remove(m3c.count_downs, Action::GreatStrides, a);
        }
    }
    lemma_special_wf(m3c, synth, a, p_bp);
    assert(seq_get(crate::effects::spec_tick(m4.count_downs), a) is None) by {
        lemma_get_none_no_key(m4.count_downs, a);
        lemma_unique_tick(m4.count_downs);
        let t = crate::effects::spec_tick(m4.count_downs);
        assert forall|i: int| 0 <= i < t.len() implies (#[trigger] t[i]).0 != a by {}
        crate::effects::lemma_no_key_absent(t, a);
    }
}

/// Trained Finesse below the full ten inner-quiet stacks yields no quality
/// and is penalized.
pub proof fn lemma_trained_finesse_wasted(m: StateModel, synth: Synth, cond: SimulationCondition)
    requires
        wf_model(m),
        model_fits(m),
        synth.wf(),
        cond.wf(),
        spec_iq_count(m.count_ups) != 9,
        m.wasted_actions <= 0x7fff_ffff_ffff_0000,
    ensures
        spec_apply(m, synth, cond, Action::TrainedFinesse).base_quality_gain == 0,
        spec_apply(m, synth, cond, Action::TrainedFinesse).quality_state == m.quality_state,
        spec_apply(m, synth, cond, Action::TrainedFinesse).wasted_actions >= m.wasted_actions + 1,
{
    let a = Action::TrainedFinesse;
    let p_bp = cond.spec_p_good_or_excellent();
    lemma_details_bounds(a);
    let m1 = StateModel { step: if a == Action::CarefulObservation { m.step } else { m.step + 1 }, ..m };
    let (m2, r) = spec_modifiers(m1, synth, a, p_bp);
    assert(r.quality_gain == 0);
    let cqm = spec_cond_quality_mult(cond, synth);
    let qg = r.success_percent as int * (cqm * r.quality_gain as int / 10000) / 100;
    assert(cqm * 0 == 0) by (nonlinear_arith);
    assert(qg == 0) by (nonlinear_arith)
        requires
            qg == r.success_percent as int * (cqm * r.quality_gain as int / 10000) / 100,
            r.quality_gain as int == 0,
            cqm * 0 == 0,
    ;
}

/// Groundwork short on durability yields exactly half the full progress
/// gain.
pub proof fn lemma_groundwork_halved(m: StateModel, synth: Synth, a: Action)
    requires
        a == Action::Groundwork || a == Action::Groundwork2,
        m.durability_state < spec_durability_cost(m, a),
    ensures
        spec_progress_gain(m, synth, a) == spec_progress_gain_full(m, synth, a) / 2,
{
}

/// Byregot's Blessing with no inner-quiet stacks yields no quality; with at
/// least one stack its multiplier is `1 + min(3, 0.2 * (stacks + 1))` times
/// the additive multiplier.
pub proof fn lemma_byregots_gate(m: StateModel, synth: Synth, p_bp: int)
    ensures
        spec_iq_count(m.count_ups) < 1 ==> spec_quality_mult(m, Action::ByregotsBlessing) == 0,
        spec_iq_count(m.count_ups) < 1 ==> spec_quality_gain(
            m,
            synth,
            Action::ByregotsBlessing,
            p_bp,
        ) == 0,
        spec_iq_count(m.count_ups) >= 1 ==> spec_quality_mult(m, Action::ByregotsBlessing) == ((
        if cd_has(m.count_downs, Action::GreatStrides) {
            200int
        } else {
            100int
        }) + (if cd_has(m.count_downs, Action::Innovation) {
            50int
        } else {
            0int
        })) * (100 + min_int(300, 20 * (spec_iq_count(m.count_ups) + 1))) / 100,
{
    let a = Action::ByregotsBlessing;
    if spec_iq_count(m.count_ups) < 1 {
        let bq = crate::model::spec_base_quality(
            synth,
            crate::level_table::spec_level_table_lookup(synth.crafter.level),
            synth.crafter.control,
        );
        let qg1 = bq * spec_details(a).quality_percent as int / 100;
        assert(spec_quality_mult(m, a) == 0);
        assert(qg1 * spec_quality_mult(m, a) == 0) by (nonlinear_arith)
            requires
                spec_quality_mult(m, a) == 0,
        ;
        assert(0int * crate::model::spec_iq_mult(m) == 0) by (nonlinear_arith);
    }
}

/// Decoding a genome and folding the decoded action list through the
/// transition yields the same terminal state as the evaluator's own fold
/// over the genome.
pub proof fn lemma_fold_matches_decoded(
    synth: Synth,
    st: StateModel,
    cond: SimulationCondition,
    genome: Seq<u8>,
)
    ensures
        spec_fold_genome(synth, st, cond, genome) == spec_fold_actions(
            synth,
            st,
            cond,
            spec_decode(synth.crafter.actions@, genome),
        ),
    decreases genome.len(),
{
    if genome.len() == 0 {
    } else {
        let acts = synth.crafter.actions@;
        match spec_decode_gene(acts, genome[0]) {
            None => {
                lemma_fold_matches_decoded(synth, st, cond, genome.drop_first());
            },
            Some(a) => {
                let d = seq![a] + spec_decode(acts, genome.drop_first());
                assert(d[0] == a);
                assert(d.drop_first() =~= spec_decode(acts, genome.drop_first()));
                let tmp = spec_apply(st, synth, cond, a);
                let cond2 = cond.spec_update(
                    spec_prob_good_percent(synth),
                    spec_prob_excellent_percent(synth),
                );
                if tmp.progress_state >= synth.recipe.difficulty as int {
                } else if tmp.durability_state <= 0 {
                } else if tmp.cp_state <= 0 {
                } else {
                    lemma_fold_matches_decoded(synth, tmp, cond2, genome.drop_first());
                }
            },
        }
    }
}

} // verus!

verus! {

/// Reflect outside step 1, at the modifier phase: no quality, no CP cost,
/// and exactly one wasted action added.
pub proof fn lemma_reflect_late_modifiers(m: StateModel, synth: Synth, p_bp: int)
    requires
        wf_model(m),
        m.step != 1,
        m.wasted_actions <= 0x7fff_ffff_ffff_0000,
    ensures
        spec_modifiers(m, synth, Action::Reflect, p_bp).1.quality_gain == 0,
        spec_modifiers(m, synth, Action::Reflect, p_bp).1.cp_cost == 0,
        spec_modifiers(m, synth, Action::Reflect, p_bp).0.wasted_actions == m.wasted_actions + 1,
{
    lemma_details_bounds(Action::Reflect);
    reveal(spec_details);
}

/// Muscle Memory outside step 1, at the modifier phase: no progress, no CP
/// cost, and exactly ten wasted actions added (the countdown bookkeeping
/// adds one more).
pub proof fn lemma_muscle_memory_late_modifiers(m: StateModel, synth: Synth, p_bp: int)
    requires
        wf_model(m),
        m.step != 1,
        m.wasted_actions <= 0x7fff_ffff_ffff_0000,
    ensures
        spec_modifiers(m, synth, Action::MuscleMemory, p_bp).1.progress_gain == 0,
        spec_modifiers(m, synth, Action::MuscleMemory, p_bp).1.cp_cost == 0,
        spec_modifiers(m, synth, Action::MuscleMemory, p_bp).0.wasted_actions == m.wasted_actions
            + 10,
{
    lemma_details_bounds(Action::MuscleMemory);
    reveal(spec_details);
    let bp = crate::model::spec_base_progress(
        synth,
        crate::level_table::spec_level_table_lookup(synth.crafter.level),
        synth.crafter.craftsmanship,
    );
    assert(bp * spec_details(Action::MuscleMemory).progress_percent as int * 0 == 0)
        by (nonlinear_arith);
}

/// Trained Finesse below the full ten stacks, at the modifier phase: no
/// quality and exactly one wasted action added.
pub proof fn lemma_trained_finesse_modifiers(m: StateModel, synth: Synth, p_bp: int)
    requires
        wf_model(m),
        spec_iq_count(m.count_ups) != 9,
        m.wasted_actions <= 0x7fff_ffff_ffff_0000,
    ensures
        spec_modifiers(m, synth, Action::TrainedFinesse, p_bp).1.quality_gain == 0,
        spec_modifiers(m, synth, Action::TrainedFinesse, p_bp).0.wasted_actions
            == m.wasted_actions + 1,
{
    lemma_details_bounds(Action::TrainedFinesse);
    reveal(spec_details);
}

} // verus!
