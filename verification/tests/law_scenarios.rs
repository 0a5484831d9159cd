//! Concrete instances of the transition-system laws.
use xiv_crafting_sim::actions::Action;
use xiv_crafting_sim::model::{Crafter, Recipe, SimulationCondition, SolverVars, State, Synth};

fn weaver_synth() -> Synth {
    Synth {
        crafter: Crafter {
            level: 78,
            craftsmanship: 863,
            control: 877,
            craft_points: 412,
            specialist: false,
            actions: vec![
                Action::MuscleMemory,
                Action::BasicSynth2,
                Action::BasicTouch,
                Action::StandardTouch,
                Action::ByregotsBlessing,
                Action::PreparatoryTouch,
                Action::Groundwork,
                Action::WasteNot,
                Action::Veneration,
                Action::TrainedFinesse,
                Action::Reflect,
                Action::CarefulObservation,
            ],
        },
        recipe: Recipe {
            base_level: 71,
            level: 390,
            difficulty: 1195,
            durability: 60,
            safety_margin: 0,
            start_quality: 0,
            max_quality: 3010,
            suggested_craftsmanship: 1320,
            suggested_control: 1220,
            progress_divider: 101,
            progress_modifier: Some(100),
            quality_divider: 81,
            quality_modifier: Some(100),
            stars: None,
        },
        max_trick_uses: 0,
        reliability_percent: 100,
        max_length: 50,
        solver_vars: SolverVars {
            solve_for_completion: false,
            remainder_cp_fitness_value: 10,
            remainder_dur_fitness_value: 100,
            max_stagnation_counter: 25,
            population: 100,
            generations: 10,
        },
    }
}

#[test]
fn step_advances_except_careful_observation() {
    let synth = weaver_synth();
    let mut condition = SimulationCondition::new_sim_condition();
    let state = State::initial(&synth);
    let observed = state.add_action(&synth, Action::CarefulObservation, &mut condition);
    assert_eq!(observed.step, 0);
    assert_eq!(observed.careful_observation_uses, 1);
    let advanced = observed.add_action(&synth, Action::BasicTouch, &mut condition);
    assert_eq!(advanced.step, 1);
}

#[test]
fn gains_are_monotone_along_a_rotation() {
    let synth = weaver_synth();
    let mut condition = SimulationCondition::new_sim_condition();
    let mut state = State::initial(&synth);
    let rotation = vec![
        Action::MuscleMemory,
        Action::WasteNot,
        Action::Veneration,
        Action::Groundwork,
        Action::PreparatoryTouch,
        Action::BasicTouch,
        Action::StandardTouch,
        Action::ByregotsBlessing,
    ];
    for action in rotation {
        let next = state.add_action(&synth, action, &mut condition);
        assert!(next.quality_state >= state.quality_state);
        assert!(next.progress_state >= state.progress_state);
        assert!(next.durability_state <= synth.recipe.durability as i64);
        assert!(next.cp_state <= synth.crafter.craft_points as i64 + next.bonus_max_cp);
        state = next;
    }
}

#[test]
fn inner_quiet_stacks_cap_at_nine() {
    let synth = weaver_synth();
    let mut condition = SimulationCondition::new_sim_condition();
    let mut state = State::initial(&synth);
    for _ in 0..6 {
        state = state.add_action(&synth, Action::PreparatoryTouch, &mut condition);
        let stacks = state.effects.count_ups.get(Action::InnerQuiet).unwrap();
        assert!(-1 <= stacks && stacks <= 9);
    }
    assert_eq!(state.effects.count_ups.get(Action::InnerQuiet), Some(9));
}

#[test]
fn countdowns_stay_positive() {
    let synth = weaver_synth();
    let mut condition = SimulationCondition::new_sim_condition();
    let mut state = State::initial(&synth);
    let rotation = vec![
        Action::WasteNot,
        Action::Veneration,
        Action::BasicTouch,
        Action::BasicTouch,
        Action::BasicTouch,
        Action::BasicTouch,
        Action::BasicTouch,
    ];
    for action in rotation {
        state = state.add_action(&synth, action, &mut condition);
        for entry in state.effects.count_downs.entries.iter() {
            assert!(entry.1 >= 1);
        }
    }
    // Both countdowns have expired by now.
    assert_eq!(state.effects.count_downs.get(Action::WasteNot), None);
    assert_eq!(state.effects.count_downs.get(Action::Veneration), None);
}

#[test]
fn reflect_late_is_wasted() {
    let synth = weaver_synth();
    let mut condition = SimulationCondition::new_sim_condition();
    let state = State::initial(&synth);
    let state = state.add_action(&synth, Action::BasicSynth2, &mut condition);
    let wasted_before = state.wasted_actions;
    let quality_before = state.quality_state;
    let after = state.add_action(&synth, Action::Reflect, &mut condition);
    assert_eq!(after.base_quality_gain, 0);
    assert_eq!(after.quality_state, quality_before);
    assert!(after.wasted_actions > wasted_before);
}

#[test]
fn muscle_memory_late_is_wasted() {
    let synth = weaver_synth();
    let mut condition = SimulationCondition::new_sim_condition();
    let state = State::initial(&synth);
    let state = state.add_action(&synth, Action::BasicTouch, &mut condition);
    let progress_before = state.progress_state;
    let after = state.add_action(&synth, Action::MuscleMemory, &mut condition);
    assert_eq!(after.base_progress_gain, 0);
    assert_eq!(after.progress_state, progress_before);
    assert_eq!(after.wasted_actions, 11);
    assert_eq!(after.effects.count_downs.get(Action::MuscleMemory), None);
}

#[test]
fn trained_finesse_needs_full_stacks() {
    let synth = weaver_synth();
    let mut condition = SimulationCondition::new_sim_condition();
    let state = State::initial(&synth);
    let after = state.add_action(&synth, Action::TrainedFinesse, &mut condition);
    assert_eq!(after.base_quality_gain, 0);
    assert_eq!(after.quality_state, 0);
    assert_eq!(after.wasted_actions, 1);
}

#[test]
fn groundwork_short_on_durability_halves_progress() {
    let synth = weaver_synth();
    let mut condition = SimulationCondition::new_sim_condition();
    let mut state = State::initial(&synth);
    for _ in 0..5 {
        state = state.add_action(&synth, Action::BasicSynth2, &mut condition);
    }
    assert_eq!(state.durability_state, 10);
    let after = state.add_action(&synth, Action::Groundwork, &mut condition);
    // The full Groundwork gain here is 261; short on durability it halves.
    assert_eq!(after.base_progress_gain, 130);
}

#[test]
fn byregots_blessing_needs_a_stack() {
    let synth = weaver_synth();
    let mut condition = SimulationCondition::new_sim_condition();
    let state = State::initial(&synth);
    // No stacks yet: the blessing yields nothing and consumes Inner Quiet.
    let early = state.add_action(&synth, Action::ByregotsBlessing, &mut condition);
    assert_eq!(early.base_quality_gain, 0);
    assert_eq!(early.effects.count_ups.get(Action::InnerQuiet), None);
    // Two touches build one stack; the blessing then multiplies by
    // 1 + 0.2 * (stacks + 1).
    let mut condition2 = SimulationCondition::new_sim_condition();
    let mut built = State::initial(&synth);
    built = built.add_action(&synth, Action::BasicTouch, &mut condition2);
    built = built.add_action(&synth, Action::BasicTouch, &mut condition2);
    assert_eq!(built.effects.count_ups.get(Action::InnerQuiet), Some(1));
    let blessed = built.add_action(&synth, Action::ByregotsBlessing, &mut condition2);
    assert_eq!(blessed.base_quality_gain, 240);
    assert_eq!(blessed.quality_state, 143 + 157 + 240);
}

#[test]
fn fitness_formula_on_empty_genome() {
    let mut synth = weaver_synth();
    synth.recipe.difficulty = 45;
    synth.recipe.max_quality = 250;
    let genome: Vec<u8> = vec![];
    // No work done: the penalty is the progress deficit times the weight.
    assert_eq!(synth.fitness_of(&genome), -450000);
    assert_eq!(synth.highest_possible_fitness(), 45 + 250 * 5);
    assert_eq!(synth.lowest_possible_fitness(), i64::MIN);
}

#[test]
fn violations_on_initial_state() {
    let synth = weaver_synth();
    let state = State::initial(&synth);
    let violations = state.check_violations(&synth);
    assert!(violations.durability_ok);
    assert!(violations.cp_ok);
    assert!(violations.trick_ok);
    assert!(!violations.progress_ok);
    assert!(!violations.is_okay());
}
