//! Genomes: bounded sequences of gene values indexing the crafter's action
//! list, their decoding, and the fold that scores them through the
//! simulator.
use vstd::prelude::*;

use crate::actions::Action;
use crate::model::{
    min_int, spec_apply, spec_initial, spec_prob_excellent_percent, spec_prob_good_percent,
    SimulationCondition, State, StateModel, Synth,
};

verus! {

/// A genome: gene value 0 is a no-op, values `1..=N` index the crafter's
/// action list, anything larger is skipped.
pub type CrafterActions = Vec<u8>;

/// The action a gene selects, if any.
pub open spec fn spec_decode_gene(actions: Seq<Action>, g: u8) -> Option<Action> {
    if 1 <= g as int && g as int <= actions.len() {
        Some(actions[g as int - 1])
    } else {
        None
    }
}

/// The action list a genome decodes to.
pub open spec fn spec_decode(actions: Seq<Action>, genome: Seq<u8>) -> Seq<Action>
    decreases genome.len(),
{
    if genome.len() == 0 {
        Seq::<Action>::empty()
    } else {
        match spec_decode_gene(actions, genome[0]) {
            Some(a) => seq![a] + spec_decode(actions, genome.drop_first()),
            None => spec_decode(actions, genome.drop_first()),
        }
    }
}

/// Fold a genome through the simulator, stopping at the first terminal
/// state: progress reached (keep it), durability gone (keep it), or CP
/// overdrawn (keep the predecessor).
pub open spec fn spec_fold_genome(
    synth: Synth,
    st: StateModel,
    cond: SimulationCondition,
    genome: Seq<u8>,
) -> StateModel
    decreases genome.len(),
{
    if genome.len() == 0 {
        st
    } else {
        match spec_decode_gene(synth.crafter.actions@, genome[0]) {
            None => spec_fold_genome(synth, st, cond, genome.drop_first()),
            Some(a) => {
                let tmp = spec_apply(st, synth, cond, a);
                let cond2 = cond.spec_update(
                    spec_prob_good_percent(synth),
                    spec_prob_excellent_percent(synth),
                );
                if tmp.progress_state >= synth.recipe.difficulty as int {
                    tmp
                } else if tmp.durability_state <= 0 {
                    tmp
                } else if tmp.cp_state <= 0 {
                    st
                } else {
                    spec_fold_genome(synth, tmp, cond2, genome.drop_first())
                }
            },
        }
    }
}

/// The same fold over an already decoded action list.
pub open spec fn spec_fold_actions(
    synth: Synth,
    st: StateModel,
    cond: SimulationCondition,
    actions: Seq<Action>,
) -> StateModel
    decreases actions.len(),
{
    if actions.len() == 0 {
        st
    } else {
        let tmp = spec_apply(st, synth, cond, actions[0]);
        let cond2 = cond.spec_update(
            spec_prob_good_percent(synth),
            spec_prob_excellent_percent(synth),
        );
        if tmp.progress_state >= synth.recipe.difficulty as int {
            tmp
        } else if tmp.durability_state <= 0 {
            tmp
        } else if tmp.cp_state <= 0 {
            st
        } else {
            spec_fold_actions(synth, tmp, cond2, actions.drop_first())
        }
    }
}

/// Terminal state of a genome: the fold from the initial state with a fresh
/// condition tracker.
pub open spec fn spec_final_state(synth: Synth, genome: Seq<u8>) -> StateModel {
    spec_fold_genome(
        synth,
        spec_initial(synth),
        SimulationCondition {
            ignore_condition: true,
            pp_poor: 0,
            pp_normal: 10000,
            pp_good: 0,
            pp_excellent: 0,
        },
        genome,
    )
}

/// Fold `genome` through the simulator and return the terminal state.
pub fn calculate_final_state(genome: &CrafterActions, synth: &Synth) -> (r: State)
    requires
        synth.wf(),
        genome@.len() < 0x7fff_ffff_ffff_ffff,
    ensures
        r.model() == spec_final_state(*synth, genome@),
        r.wf(),
{
    let mut state = State::initial(synth);
    let mut condition = SimulationCondition::new_sim_condition();
    let mut i: usize = 0;
    proof {
        assert(genome@.skip(0) =~= genome@);
    }
    while i < genome.len()
        invariant
            i <= genome@.len(),
            genome@.len() < 0x7fff_ffff_ffff_ffff,
            synth.wf(),
            state.wf(),
            condition.wf(),
            state.step <= i,
            spec_fold_genome(*synth, state.model(), condition, genome@.skip(i as int))
                == spec_final_state(*synth, genome@),
        decreases genome@.len() - i,
    {
        proof {
            assert(genome@.skip(i as int)[0] == genome@[i as int]);
            assert(genome@.skip(i as int).drop_first() =~= genome@.skip(i + 1 as int));
        }
        let g = genome[i] as usize;
        if 1 <= g && g <= synth.crafter.actions.len() {
            let action = synth.crafter.actions[g - 1];
            let tmp_state = state.add_action(synth, action, &mut condition);
            if tmp_state.progress_state >= synth.recipe.difficulty as i64 {
                return tmp_state;
            }
            if tmp_state.durability_state <= 0 {
                return tmp_state;
            }
            if tmp_state.cp_state <= 0 {
                return state;
            }
            state = tmp_state;
        }
        i += 1;
    }
    state
}

/// A genome decodes to at most one action per gene.
pub proof fn lemma_decode_len(actions: Seq<Action>, genome: Seq<u8>)
    ensures
        spec_decode(actions, genome).len() <= genome.len(),
    decreases genome.len(),
{
    if genome.len() > 0 {
        lemma_decode_len(actions, genome.drop_first());
    }
}

/// Decode a genome to its full action list.
pub fn get_actions_list(genome: &CrafterActions, synth: &Synth) -> (r: Vec<Action>)
    ensures
        r@ == spec_decode(synth.crafter.actions@, genome@),
{
    let mut out: Vec<Action> = Vec::new();
    let mut i: usize = 0;
    proof {
        assert(genome@.skip(0) =~= genome@);
        assert(out@ + spec_decode(synth.crafter.actions@, genome@) =~= spec_decode(
            synth.crafter.actions@,
            genome@,
        ));
    }
    while i < genome.len()
        invariant
            i <= genome@.len(),
            out@ + spec_decode(synth.crafter.actions@, genome@.skip(i as int)) == spec_decode(
                synth.crafter.actions@,
                genome@,
            ),
        decreases genome@.len() - i,
    {
        proof {
            assert(genome@.skip(i as int)[0] == genome@[i as int]);
            assert(genome@.skip(i as int).drop_first() =~= genome@.skip(i + 1 as int));
        }
        let g = genome[i] as usize;
        if 1 <= g && g <= synth.crafter.actions.len() {
            out.push(synth.crafter.actions[g - 1]);
            proof {
                assert(out@ + spec_decode(synth.crafter.actions@, genome@.skip(i + 1 as int))
                    =~= spec_decode(synth.crafter.actions@, genome@));
            }
        }
        i += 1;
    }
    proof {
        assert(genome@.skip(i as int).len() == 0);
        assert(out@ + spec_decode(synth.crafter.actions@, genome@.skip(i as int)) =~= out@);
    }
    out
}

/// Decode a genome and fold it; return the terminal state together with the
/// decoded actions up to the termination point.
pub fn get_final_actions_list(genome: &CrafterActions, synth: &Synth) -> (r: (State, Vec<Action>))
    requires
        synth.wf(),
        genome@.len() < 0x7fff_ffff_ffff_ffff,
    ensures
        r.0.model() == spec_final_state(*synth, genome@),
        r.0.wf(),
        r.1@ == spec_decode(synth.crafter.actions@, genome@).take(
            min_int(
                spec_final_state(*synth, genome@).step,
                spec_decode(synth.crafter.actions@, genome@).len() as int,
            ),
        ),
{
    let actions = get_actions_list(genome, synth);
    let state = calculate_final_state(genome, synth);
    proof {
        lemma_decode_len(synth.crafter.actions@, genome@);
    }
    let n: usize = if state.step >= 0 && state.step < actions.len() as i64 {
        state.step as usize
    } else {
        actions.len()
    };
    let mut first: Vec<Action> = Vec::new();
    let mut i: usize = 0;
    while i < n
        invariant
            i <= n,
            n <= actions@.len(),
            first@ == actions@.take(i as int),
        decreases n - i,
    {
        first.push(actions[i]);
        proof {
            assert(first@ =~= actions@.take(i + 1 as int));
        }
        i += 1;
    }
    proof {
        assert(n as int == min_int(state.model().step, actions@.len() as int)) by {
            if (state.step as int) < (actions@.len() as int) {
                assert(n as int == state.step as int);
            } else {
                assert(n as int == actions@.len() as int);
            }
        }
        assert(actions@.take(n as int) =~= actions@.take(
            min_int(state.model().step, actions@.len() as int),
        ));
    }
    (state, first)
}

} // verus!
