//! Simulator tests: single transitions and the end-to-end scenarios.
use xiv_crafting_sim::actions::Action;
use xiv_crafting_sim::genome::{calculate_final_state, get_final_actions_list};
use xiv_crafting_sim::actions::ActionType;
use xiv_crafting_sim::level_table::level_table_lookup;
use xiv_crafting_sim::model::{Crafter, Recipe, SimulationCondition, SolverVars, State, Synth};

fn weaver_synth() -> Synth {
    Synth {
        crafter: Crafter {
            level: 78,
            craftsmanship: 863,
            control: 877,
            craft_points: 412,
            specialist: false,
            actions: vec![
                Action::MuscleMemory,
                Action::Reflect,
                Action::BasicSynth2,
                Action::CarefulSynthesis,
                Action::Groundwork,
                Action::IntensiveSynthesis,
                Action::DelicateSynthesis,
                Action::BasicTouch,
                Action::StandardTouch,
                Action::ByregotsBlessing,
                Action::PreciseTouch,
                Action::PrudentTouch,
                Action::PreparatoryTouch,
                Action::TricksOfTheTrade,
                Action::MastersMend,
                Action::WasteNot,
                Action::WasteNot2,
                Action::Veneration,
                Action::GreatStrides,
                Action::Innovation,
                Action::FinalAppraisal,
                Action::Observe,
            ],
        },
        recipe: Recipe {
            base_level: 71,
            level: 390,
            difficulty: 1195,
            durability: 60,
            safety_margin: 0,
            start_quality: 0,
            max_quality: 3010,
            suggested_craftsmanship: 1320,
            suggested_control: 1220,
            progress_divider: 101,
            progress_modifier: Some(100),
            quality_divider: 81,
            quality_modifier: Some(100),
            stars: None,
        },
        max_trick_uses: 0,
        reliability_percent: 100,
        max_length: 50,
        solver_vars: SolverVars {
            solve_for_completion: false,
            remainder_cp_fitness_value: 10,
            remainder_dur_fitness_value: 100,
            max_stagnation_counter: 25,
            population: 200000,
            generations: 2000,
        },
    }
}

fn smol_synth() -> Synth {
    Synth {
        crafter: Crafter {
            level: 9,
            craftsmanship: 100,
            control: 100,
            craft_points: 180,
            specialist: false,
            actions: vec![Action::BasicSynth, Action::BasicTouch, Action::MastersMend],
        },
        recipe: Recipe {
            base_level: 10,
            level: 10,
            difficulty: 45,
            durability: 60,
            safety_margin: 0,
            start_quality: 0,
            max_quality: 250,
            suggested_craftsmanship: 59,
            suggested_control: 29,
            progress_divider: 50,
            progress_modifier: Some(100),
            quality_divider: 30,
            quality_modifier: Some(100),
            stars: None,
        },
        max_trick_uses: 0,
        reliability_percent: 100,
        max_length: 0,
        solver_vars: SolverVars {
            solve_for_completion: false,
            remainder_cp_fitness_value: 10,
            remainder_dur_fitness_value: 100,
            max_stagnation_counter: 25,
            population: 10000,
            generations: 1000,
        },
    }
}

#[test]
fn basic_action_sim() {
    let synth = weaver_synth();
    let mut simulation_condition = SimulationCondition::new_sim_condition();
    let mut state = State::initial(&synth);
    state = state.add_action(&synth, Action::MuscleMemory, &mut simulation_condition);
    let quality_touch = state.add_action(&synth, Action::StandardTouch, &mut simulation_condition);
    let summary = format!(
        "#{} {}/{} qual: {}/{} dur: {}/{} cp: {}/{}",
        quality_touch.step,
        quality_touch.progress_state,
        synth.recipe.difficulty,
        quality_touch.quality_state,
        synth.recipe.max_quality,
        quality_touch.durability_state,
        synth.recipe.durability,
        quality_touch.cp_state,
        synth.crafter.craft_points,
    );
    println!("q touch state {}", summary);
    let progress_touch = state.add_action(&synth, Action::BasicSynth, &mut simulation_condition);
    assert_eq!(progress_touch.progress_state, 261 + 174);
}

#[test]
fn trivial_finish_durability() {
    // Two Basic Synthesis uses on the small instance: 22 progress each,
    // 10 durability each.
    let synth = smol_synth();
    let genome: Vec<u8> = vec![1, 1];
    let state = calculate_final_state(&genome, &synth);
    assert_eq!(state.progress_state, 44);
    assert_eq!(state.durability_state, 40);
    assert_eq!(state.step, 2);
}

#[test]
fn empty_genome_is_initial_state() {
    let synth = weaver_synth();
    let genome: Vec<u8> = vec![0, 0, 0];
    let (state, actions) = get_final_actions_list(&genome, &synth);
    assert_eq!(state.step, 0);
    assert_eq!(state.progress_state, 0);
    assert_eq!(state.quality_state, 0);
    assert_eq!(state.durability_state, 60);
    assert_eq!(state.cp_state, 412);
    assert!(actions.is_empty());
    let fitness = synth.fitness_of(&genome);
    assert!(fitness < 0);
}

#[test]
fn reflect_at_step_one_sets_inner_quiet() {
    let synth = weaver_synth();
    let mut condition = SimulationCondition::new_sim_condition();
    let state = State::initial(&synth);
    let after = state.add_action(&synth, Action::Reflect, &mut condition);
    assert_eq!(after.effects.count_ups.get(Action::InnerQuiet), Some(1));
    assert_eq!(after.step, 1);
}

#[test]
fn waste_not_refuses_prudent_touch() {
    let synth = weaver_synth();
    let mut condition = SimulationCondition::new_sim_condition();
    let state = State::initial(&synth);
    let state = state.add_action(&synth, Action::WasteNot, &mut condition);
    assert_eq!(state.wasted_actions, 0);
    let state = state.add_action(&synth, Action::PrudentTouch, &mut condition);
    assert_eq!(state.base_quality_gain, 0);
    assert_eq!(state.quality_state, 0);
    assert_eq!(state.wasted_actions, 1);
    assert_eq!(state.durability_state, 55);
}

#[test]
fn trained_eye_fills_quality() {
    let mut synth = weaver_synth();
    synth.crafter.level = 90;
    synth.crafter.actions = vec![Action::TrainedEye];
    synth.recipe.base_level = 50;
    synth.recipe.level = 130;
    synth.recipe.max_quality = 1000;
    synth.recipe.stars = None;
    let mut condition = SimulationCondition::new_sim_condition();
    let state = State::initial(&synth);
    let after = state.add_action(&synth, Action::TrainedEye, &mut condition);
    assert_eq!(after.quality_state, 1000);
    assert_eq!(after.wasted_actions, 0);
}

#[test]
fn focused_combo_after_observe() {
    let synth = weaver_synth();
    let mut condition = SimulationCondition::new_sim_condition();
    let state = State::initial(&synth);
    let state = state.add_action(&synth, Action::Observe, &mut condition);
    let after = state.add_action(&synth, Action::FocusedSynthesis, &mut condition);
    // Success is certain after an Observe: the full deterministic gain
    // lands (base 87 times the 2.0 action multiplier).
    assert_eq!(after.base_progress_gain, 174);
    assert_eq!(after.progress_state, 174);
    // Without the Observe the 50 percent success chance halves the
    // committed gain.
    let mut condition2 = SimulationCondition::new_sim_condition();
    let alone = State::initial(&synth).add_action(
        &synth,
        Action::FocusedSynthesis,
        &mut condition2,
    );
    assert_eq!(alone.progress_state, 87);
}

#[test]
fn base_gain_formulas() {
    // Level 78 maps to 415 on the recipe scale, above the recipe's 390, so
    // no modifier scaling applies: floor(8630 / 101) + 2 and
    // floor(8770 / 81) + 35.
    let synth = weaver_synth();
    let (base_progress, base_quality) = synth.calculate_progress_and_quality_increase();
    assert_eq!(base_progress, 87);
    assert_eq!(base_quality, 143);
    // Level 9 sits at or below the recipe's 10, so the 100 percent
    // modifiers apply (and change nothing).
    let small = smol_synth();
    let (small_progress, small_quality) = small.calculate_progress_and_quality_increase();
    assert_eq!(small_progress, 22);
    assert_eq!(small_quality, 68);
}

#[test]
fn level_table_boundaries() {
    assert_eq!(level_table_lookup(1), 1);
    assert_eq!(level_table_lookup(50), 50);
    assert_eq!(level_table_lookup(51), 120);
    assert_eq!(level_table_lookup(78), 415);
    assert_eq!(level_table_lookup(80), 420);
    assert_eq!(level_table_lookup(90), 560);
}

#[test]
fn catalog_rows() {
    let standard_touch = Action::StandardTouch.details();
    assert_eq!(standard_touch.durability_cost, 10);
    assert_eq!(standard_touch.cp_cost, 32);
    assert_eq!(standard_touch.success_percent, 100);
    assert_eq!(standard_touch.quality_percent, 125);
    assert_eq!(standard_touch.progress_percent, 0);
    let waste_not_2 = Action::WasteNot2.details();
    assert_eq!(waste_not_2.cp_cost, 98);
    assert_eq!(waste_not_2.action_type, ActionType::Countdown { active_turns: 8 });
    let tricks = Action::TricksOfTheTrade.details();
    assert!(tricks.on_good && tricks.on_excellent);
    let hasty = Action::HastyTouch.details();
    assert_eq!(hasty.success_percent, 60);
}
