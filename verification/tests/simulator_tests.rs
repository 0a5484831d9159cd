//! Driver tests: the solver on small instances.
use xiv_crafting_sim::actions::Action;
use xiv_crafting_sim::genome::{get_actions_list, get_final_actions_list};
use xiv_crafting_sim::model::{Crafter, Recipe, SolverVars, Synth};
use xiv_crafting_sim::simulator::{CraftSimulator, SimStep};

fn weaver_synth() -> Synth {
    Synth {
        crafter: Crafter {
            level: 78,
            craftsmanship: 863,
            control: 877,
            craft_points: 412,
            specialist: false,
            actions: vec![
                Action::MuscleMemory,
                Action::Reflect,
                Action::BasicSynth2,
                Action::CarefulSynthesis,
                Action::Groundwork,
                Action::IntensiveSynthesis,
                Action::DelicateSynthesis,
                Action::BasicTouch,
                Action::StandardTouch,
                Action::ByregotsBlessing,
                Action::PreciseTouch,
                Action::PrudentTouch,
                Action::PreparatoryTouch,
                Action::TricksOfTheTrade,
                Action::MastersMend,
                Action::WasteNot,
                Action::WasteNot2,
                Action::Veneration,
                Action::GreatStrides,
                Action::Innovation,
                Action::FinalAppraisal,
                Action::Observe,
            ],
        },
        recipe: Recipe {
            base_level: 71,
            level: 390,
            difficulty: 1195,
            durability: 60,
            safety_margin: 0,
            start_quality: 0,
            max_quality: 3010,
            suggested_craftsmanship: 1320,
            suggested_control: 1220,
            progress_divider: 101,
            progress_modifier: Some(100),
            quality_divider: 81,
            quality_modifier: Some(100),
            stars: None,
        },
        max_trick_uses: 0,
        reliability_percent: 100,
        max_length: 50,
        solver_vars: SolverVars {
            solve_for_completion: false,
            remainder_cp_fitness_value: 10,
            remainder_dur_fitness_value: 100,
            max_stagnation_counter: 25,
            population: 12000,
            generations: 2000,
        },
    }
}

fn smol_synth() -> Synth {
    Synth {
        crafter: Crafter {
            level: 9,
            craftsmanship: 100,
            control: 100,
            craft_points: 180,
            specialist: false,
            actions: vec![Action::BasicSynth, Action::BasicTouch, Action::MastersMend],
        },
        recipe: Recipe {
            base_level: 10,
            level: 10,
            difficulty: 45,
            durability: 60,
            safety_margin: 0,
            start_quality: 0,
            max_quality: 250,
            suggested_craftsmanship: 59,
            suggested_control: 29,
            progress_divider: 50,
            progress_modifier: Some(100),
            quality_divider: 30,
            quality_modifier: Some(100),
            stars: None,
        },
        max_trick_uses: 0,
        reliability_percent: 100,
        max_length: 0,
        solver_vars: SolverVars {
            solve_for_completion: false,
            remainder_cp_fitness_value: 10,
            remainder_dur_fitness_value: 100,
            max_stagnation_counter: 25,
            population: 10000,
            generations: 1000,
        },
    }
}

#[test]
fn valid_crafter_actions() {
    let valid_rotation: Vec<u8> = vec![1, 1, 2, 2, 0, 1, 2, 3, 1];
    let synth = smol_synth();
    let actions = get_actions_list(&valid_rotation, &synth);
    assert_eq!(
        actions,
        vec![
            Action::BasicSynth,
            Action::BasicSynth,
            Action::BasicTouch,
            Action::BasicTouch,
            Action::BasicSynth,
            Action::BasicTouch,
            Action::MastersMend,
            Action::BasicSynth,
        ]
    );
    let (state, _action) = get_final_actions_list(&valid_rotation, &synth);
    assert_ne!(state.step, 0);
}

#[test]
fn empty_action_list() {
    let numbers: Vec<u8> = vec![0, 0, 25, 26, 7, 3, 10, 1];
    let synth = weaver_synth();
    let fitness = synth.fitness_of(&numbers);
    assert!(fitness < 0);
}

#[test]
fn test_real_actions() {
    let mut synth = weaver_synth();
    synth.solver_vars.population = 10;
    let mut sim = CraftSimulator::new(synth);
    let _ = sim.next_generation();
}

#[test]
fn lvl50_cul_synth() {
    let synth = Synth {
        crafter: Crafter {
            level: 51,
            craftsmanship: 117,
            control: 158,
            craft_points: 180,
            specialist: false,
            actions: vec![
                Action::BasicSynth2,
                Action::BasicTouch,
                Action::StandardTouch,
                Action::ByregotsBlessing,
                Action::TricksOfTheTrade,
                Action::MastersMend,
                Action::WasteNot,
                Action::WasteNot2,
                Action::Veneration,
                Action::GreatStrides,
                Action::Innovation,
                Action::Observe,
            ],
        },
        recipe: Recipe {
            base_level: 40,
            level: 40,
            difficulty: 138,
            durability: 60,
            safety_margin: 0,
            start_quality: 0,
            max_quality: 3500,
            suggested_craftsmanship: 136,
            suggested_control: 68,
            progress_divider: 50,
            progress_modifier: Some(100),
            quality_divider: 30,
            quality_modifier: Some(100),
            stars: None,
        },
        max_trick_uses: 0,
        reliability_percent: 100,
        max_length: 0,
        solver_vars: SolverVars {
            solve_for_completion: false,
            remainder_cp_fitness_value: 10,
            remainder_dur_fitness_value: 100,
            max_stagnation_counter: 25,
            population: 10000,
            generations: 1000,
        },
    };
    let mut sim = CraftSimulator::new(synth);
    let next = sim.next_generation();
    match next {
        SimStep::Success { .. } => {
            assert!(false);
        }
        SimStep::Progress { best_sequence, .. } => {
            assert_ne!(best_sequence, vec![]);
        }
        SimStep::Error(_) => {
            assert!(false);
        }
    }
}

#[test]
fn test_basic_synth() {
    let recipe = Recipe {
        base_level: 1,
        level: 1,
        difficulty: 100,
        durability: 60,
        safety_margin: 0,
        start_quality: 0,
        max_quality: 100,
        suggested_craftsmanship: 1,
        suggested_control: 1,
        progress_divider: 1,
        progress_modifier: None,
        quality_divider: 1,
        quality_modifier: None,
        stars: None,
    };
    let crafter = Crafter {
        craftsmanship: 20,
        control: 20,
        craft_points: 10,
        level: 10,
        specialist: false,
        actions: vec![Action::BasicSynth, Action::StandardTouch],
    };
    let synth = Synth {
        crafter,
        recipe,
        max_trick_uses: 10,
        reliability_percent: 1,
        max_length: 50,
        solver_vars: SolverVars {
            solve_for_completion: false,
            remainder_cp_fitness_value: 0,
            remainder_dur_fitness_value: 0,
            max_stagnation_counter: 0,
            population: 5000,
            generations: 750,
        },
    };
    let mut sim = CraftSimulator::new(synth);
    let sim_result = sim.next_generation();
    match sim_result {
        SimStep::Success { .. } => assert!(false),
        SimStep::Progress { best_sequence, .. } => {
            assert_ne!(best_sequence.len(), 0);
        }
        SimStep::Error(_) => assert!(false),
    }
}

#[test]
fn driver_reports_success_after_cap() {
    let mut synth = weaver_synth();
    synth.solver_vars.population = 20;
    synth.solver_vars.generations = 1;
    let mut sim = CraftSimulator::new(synth);
    match sim.next_generation() {
        SimStep::Progress { best_sequence, generations_completed, max_generations, .. } => {
            assert_eq!(generations_completed, 1);
            assert_eq!(max_generations, 1);
            assert!(!best_sequence.is_empty());
        }
        _ => assert!(false),
    }
    match sim.next_generation() {
        SimStep::Success { best_sequence, elapsed_time, .. } => {
            assert!(!best_sequence.is_empty());
            assert_eq!(elapsed_time, None);
        }
        _ => assert!(false),
    }
}

#[test]
fn driver_errors_on_empty_population() {
    let mut synth = weaver_synth();
    synth.solver_vars.population = 0;
    let mut sim = CraftSimulator::new(synth);
    match sim.next_generation() {
        SimStep::Error(message) => assert!(!message.is_empty()),
        _ => assert!(false),
    }
}

#[test]
fn driver_errors_on_empty_action_list() {
    let mut synth = weaver_synth();
    synth.solver_vars.population = 5;
    synth.crafter.actions = vec![];
    let mut sim = CraftSimulator::new(synth);
    match sim.next_generation() {
        SimStep::Error(message) => assert!(!message.is_empty()),
        _ => assert!(false),
    }
}

#[test]
fn pause_never_reports_progress() {
    let mut synth = weaver_synth();
    synth.solver_vars.population = 10;
    synth.solver_vars.generations = 100;
    let mut sim = CraftSimulator::new(synth);
    match sim.pause() {
        SimStep::Success { best_sequence, .. } => assert!(!best_sequence.is_empty()),
        SimStep::Progress { .. } => assert!(false),
        SimStep::Error(_) => assert!(false),
    }
}

#[test]
fn identical_seeds_replay_identically() {
    let mut synth_a = weaver_synth();
    synth_a.solver_vars.population = 30;
    let synth_b = {
        let mut s = weaver_synth();
        s.solver_vars.population = 30;
        s
    };
    let mut sim_a = CraftSimulator::new_with_seed(synth_a, 12345);
    let mut sim_b = CraftSimulator::new_with_seed(synth_b, 12345);
    for _ in 0..3 {
        let step_a = sim_a.next_generation();
        let step_b = sim_b.next_generation();
        match (step_a, step_b) {
            (
                SimStep::Progress { best_sequence: seq_a, state: state_a, .. },
                SimStep::Progress { best_sequence: seq_b, state: state_b, .. },
            ) => {
                assert_eq!(seq_a, seq_b);
                assert_eq!(state_a.quality, state_b.quality);
                assert_eq!(state_a.progress, state_b.progress);
                assert_eq!(state_a.cp, state_b.cp);
                assert_eq!(state_a.durability, state_b.durability);
            }
            _ => assert!(false),
        }
    }
}
