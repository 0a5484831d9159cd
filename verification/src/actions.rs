//! The action catalog: a closed, finite table of crafting actions with their
//! costs and multipliers.
//!
//! Fractional game data is stored in integer form: success probabilities are
//! percentages (`100` = certain), and the quality / progress multipliers are
//! percentages of the base gain (`125` = 1.25 times the base gain).
use vstd::prelude::*;

verus! {

/// How an action interacts with the effect tracker.
#[derive(Clone, Copy, Debug, PartialEq, Eq, Structural)]
pub enum ActionType {
    /// No entry in the effect tracker.
    Immediate,
    /// Installs a count-up entry that accumulates stacks.
    CountUp,
    /// Installs a countdown entry that expires after `active_turns` turns.
    Countdown { active_turns: i8 },
}

impl Default for ActionType {
    fn default() -> (r: Self)
        ensures
            r == ActionType::Immediate,
    {
        ActionType::Immediate
    }
}

/// A pair of actions whose prior appearance enables a combined action at
/// reduced cost. Informational: the simulator keys its combo logic on the
/// concrete actions instead.
#[derive(Clone, Copy, Debug, PartialEq, Eq, Structural)]
pub struct Combo {
    pub action_1: Action,
    pub action_2: Action,
}

/// The catalog record of one action.
#[derive(Clone, Copy, Debug, PartialEq, Eq, Structural)]
pub struct ActionDetails {
    pub durability_cost: i64,
    pub cp_cost: i64,
    /// Probability of success, in percent (0..=100).
    pub success_percent: i64,
    /// Quality multiplier, in percent of the base quality gain.
    pub quality_percent: i64,
    /// Progress multiplier, in percent of the base progress gain.
    pub progress_percent: i64,
    pub action_type: ActionType,
    /// Minimum crafter level.
    pub level: i64,
    /// Usable only when the condition is Good (or Heart and Soul is up).
    pub on_good: bool,
    /// Usable only when the condition is Excellent (or Heart and Soul is up).
    pub on_excellent: bool,
    pub combo: Option<Combo>,
}

/// Identity of a crafting action, drawn from the closed catalog.
#[derive(Clone, Copy, Debug, PartialEq, Eq, Hash, Structural)]
pub enum Action {
    Observe,
    BasicSynth,
    BasicSynth2,
    CarefulSynthesis,
    RapidSynthesis,
    BasicTouch,
    StandardTouch,
    HastyTouch,
    ByregotsBlessing,
    MastersMend,
    TricksOfTheTrade,
    InnerQuiet,
    Manipulation,
    WasteNot,
    WasteNot2,
    Veneration,
    Innovation,
    GreatStrides,
    PreciseTouch,
    MuscleMemory,
    RapidSynthesis2,
    PrudentTouch,
    FocusedSynthesis,
    FocusedTouch,
    Reflect,
    PreparatoryTouch,
    Groundwork,
    DelicateSynthesis,
    IntensiveSynthesis,
    TrainedEye,
    CarefulSynthesis2,
    Groundwork2,
    AdvancedTouch,
    PrudentSynthesis,
    TrainedFinesse,
    FinalAppraisal,
    HeartAndSoul,
    CarefulObservation,
    FocusedTouchCombo,
    FocusedSynthesisCombo,
}

/// Catalog record without a combo predecessor.
pub open spec fn rec(
    dur: i64,
    cp: i64,
    sp: i64,
    qp: i64,
    pp: i64,
    t: ActionType,
    lvl: i64,
    good: bool,
    exc: bool,
) -> ActionDetails {
    ActionDetails {
        durability_cost: dur,
        cp_cost: cp,
        success_percent: sp,
        quality_percent: qp,
        progress_percent: pp,
        action_type: t,
        level: lvl,
        on_good: good,
        on_excellent: exc,
        combo: None,
    }
}

fn rec_x(
    dur: i64,
    cp: i64,
    sp: i64,
    qp: i64,
    pp: i64,
    t: ActionType,
    lvl: i64,
    good: bool,
    exc: bool,
) -> (r: ActionDetails)
    ensures
        r == rec(dur, cp, sp, qp, pp, t, lvl, good, exc),
{
    ActionDetails {
        durability_cost: dur,
        cp_cost: cp,
        success_percent: sp,
        quality_percent: qp,
        progress_percent: pp,
        action_type: t,
        level: lvl,
        on_good: good,
        on_excellent: exc,
        combo: None,
    }
}

/// The authoritative catalog, as a specification-level table.
#[verifier::opaque]
pub open spec fn spec_details(a: Action) -> ActionDetails {
    match a {
        Action::Observe => rec(0, 7, 100, 0, 0, ActionType::Immediate, 13, false, false),
        Action::BasicSynth => rec(10, 0, 100, 0, 100, ActionType::Immediate, 1, false, false),
        Action::BasicSynth2 => rec(10, 0, 100, 0, 120, ActionType::Immediate, 31, false, false),
        Action::CarefulSynthesis => rec(10, 7, 100, 0, 120, ActionType::Immediate, 62, false, false),
        Action::RapidSynthesis => rec(10, 0, 50, 0, 250, ActionType::Immediate, 9, false, false),
        Action::BasicTouch => rec(10, 18, 100, 100, 0, ActionType::Immediate, 18, false, false),
        Action::StandardTouch => rec(10, 32, 100, 125, 0, ActionType::Immediate, 18, false, false),
        Action::HastyTouch => rec(10, 0, 60, 100, 0, ActionType::Immediate, 9, false, false),
        Action::ByregotsBlessing => rec(10, 24, 100, 100, 0, ActionType::Immediate, 50, false, false),
        Action::MastersMend => rec(0, 88, 100, 0, 0, ActionType::Immediate, 7, false, false),
        Action::TricksOfTheTrade => rec(0, 0, 100, 0, 0, ActionType::Immediate, 13, true, true),
        Action::InnerQuiet => rec(0, 18, 100, 0, 0, ActionType::CountUp, 11, false, false),
        Action::Manipulation => rec(
            0,
            96,
            100,
            0,
            0,
            ActionType::Countdown { active_turns: 8 },
            65,
            false,
            false,
        ),
        Action::WasteNot => rec(
            0,
            56,
            100,
            0,
            0,
            ActionType::Countdown { active_turns: 4 },
            15,
            false,
            false,
        ),
        Action::WasteNot2 => rec(
            0,
            98,
            100,
            0,
            0,
            ActionType::Countdown { active_turns: 8 },
            47,
            false,
            false,
        ),
        Action::Veneration => rec(
            0,
            18,
            100,
            0,
            0,
            ActionType::Countdown { active_turns: 4 },
            15,
            false,
            false,
        ),
        Action::Innovation => rec(
            0,
            18,
            100,
            0,
            0,
            ActionType::Countdown { active_turns: 4 },
            26,
            false,
            false,
        ),
        Action::GreatStrides => rec(
            0,
            32,
            100,
            0,
            0,
            ActionType::Countdown { active_turns: 3 },
            31,
            false,
            false,
        ),
        Action::PreciseTouch => rec(10, 18, 100, 150, 0, ActionType::Immediate, 53, true, true),
        Action::MuscleMemory => rec(
            10,
            6,
            100,
            0,
            300,
            ActionType::Countdown { active_turns: 5 },
            54,
            false,
            false,
        ),
        Action::RapidSynthesis2 => rec(10, 0, 50, 0, 500, ActionType::Immediate, 63, false, false),
        Action::PrudentTouch => rec(5, 25, 100, 100, 0, ActionType::Immediate, 66, false, false),
        Action::FocusedSynthesis => rec(10, 5, 50, 0, 200, ActionType::Immediate, 67, false, false),
        Action::FocusedTouch => rec(10, 18, 50, 150, 0, ActionType::Immediate, 68, false, false),
        Action::Reflect => rec(10, 6, 100, 100, 0, ActionType::Immediate, 69, false, false),
        Action::PreparatoryTouch => rec(20, 40, 100, 200, 0, ActionType::Immediate, 71, false, false),
        Action::Groundwork => rec(20, 18, 100, 0, 300, ActionType::Immediate, 72, false, false),
        Action::DelicateSynthesis => rec(10, 32, 100, 100, 100, ActionType::Immediate, 76, false, false),
        Action::IntensiveSynthesis => rec(10, 6, 100, 0, 400, ActionType::Immediate, 78, true, true),
        Action::TrainedEye => rec(10, 250, 100, 0, 0, ActionType::Immediate, 80, false, false),
        Action::CarefulSynthesis2 => rec(10, 7, 100, 0, 180, ActionType::Immediate, 82, false, false),
        Action::Groundwork2 => rec(20, 18, 100, 0, 360, ActionType::Immediate, 86, false, false),
        Action::AdvancedTouch => rec(10, 46, 100, 150, 0, ActionType::Immediate, 84, false, false),
        Action::PrudentSynthesis => rec(5, 18, 100, 0, 180, ActionType::Immediate, 88, false, false),
        Action::TrainedFinesse => rec(0, 32, 100, 100, 0, ActionType::Immediate, 90, false, false),
        Action::FinalAppraisal => rec(
            0,
            1,
            100,
            0,
            0,
            ActionType::Countdown { active_turns: 5 },
            42,
            false,
            false,
        ),
        Action::HeartAndSoul => rec(0, 0, 100, 0, 0, ActionType::Immediate, 86, false, false),
        Action::CarefulObservation => rec(0, 0, 100, 0, 0, ActionType::Immediate, 55, false, false),
        Action::FocusedTouchCombo => ActionDetails {
            combo: Some(Combo { action_1: Action::Observe, action_2: Action::FocusedTouch }),
            ..rec(10, 25, 100, 150, 0, ActionType::Immediate, 68, false, false)
        },
        Action::FocusedSynthesisCombo => ActionDetails {
            combo: Some(Combo { action_1: Action::Observe, action_2: Action::FocusedSynthesis }),
            ..rec(10, 12, 100, 0, 200, ActionType::Immediate, 67, false, false)
        },
    }
}

impl Action {
    /// Look up this action's catalog record.
    pub fn details(&self) -> (r: ActionDetails)
        ensures
            r == spec_details(*self),
    {
        proof {
            reveal(spec_details);
        }
        match self {
            Action::Observe => rec_x(0, 7, 100, 0, 0, ActionType::Immediate, 13, false, false),
            Action::BasicSynth => rec_x(10, 0, 100, 0, 100, ActionType::Immediate, 1, false, false),
            Action::BasicSynth2 => rec_x(10, 0, 100, 0, 120, ActionType::Immediate, 31, false, false),
            Action::CarefulSynthesis => rec_x(
                10,
                7,
                100,
                0,
                120,
                ActionType::Immediate,
                62,
                false,
                false,
            ),
            Action::RapidSynthesis => rec_x(10, 0, 50, 0, 250, ActionType::Immediate, 9, false, false),
            Action::BasicTouch => rec_x(10, 18, 100, 100, 0, ActionType::Immediate, 18, false, false),
            Action::StandardTouch => rec_x(10, 32, 100, 125, 0, ActionType::Immediate, 18, false, false),
            Action::HastyTouch => rec_x(10, 0, 60, 100, 0, ActionType::Immediate, 9, false, false),
            Action::ByregotsBlessing => rec_x(
                10,
                24,
                100,
                100,
                0,
                ActionType::Immediate,
                50,
                false,
                false,
            ),
            Action::MastersMend => rec_x(0, 88, 100, 0, 0, ActionType::Immediate, 7, false, false),
            Action::TricksOfTheTrade => rec_x(0, 0, 100, 0, 0, ActionType::Immediate, 13, true, true),
            Action::InnerQuiet => rec_x(0, 18, 100, 0, 0, ActionType::CountUp, 11, false, false),
            Action::Manipulation => rec_x(
                0,
                96,
                100,
                0,
                0,
                ActionType::Countdown { active_turns: 8 },
                65,
                false,
                false,
            ),
            Action::WasteNot => rec_x(
                0,
                56,
                100,
                0,
                0,
                ActionType::Countdown { active_turns: 4 },
                15,
                false,
                false,
            ),
            Action::WasteNot2 => rec_x(
                0,
                98,
                100,
                0,
                0,
                ActionType::Countdown { active_turns: 8 },
                47,
                false,
                false,
            ),
            Action::Veneration => rec_x(
                0,
                18,
                100,
                0,
                0,
                ActionType::Countdown { active_turns: 4 },
                15,
                false,
                false,
            ),
            Action::Innovation => rec_x(
                0,
                18,
                100,
                0,
                0,
                ActionType::Countdown { active_turns: 4 },
                26,
                false,
                false,
            ),
            Action::GreatStrides => rec_x(
                0,
                32,
                100,
                0,
                0,
                ActionType::Countdown { active_turns: 3 },
                31,
                false,
                false,
            ),
            Action::PreciseTouch => rec_x(10, 18, 100, 150, 0, ActionType::Immediate, 53, true, true),
            Action::MuscleMemory => rec_x(
                10,
                6,
                100,
                0,
                300,
                ActionType::Countdown { active_turns: 5 },
                54,
                false,
                false,
            ),
            Action::RapidSynthesis2 => rec_x(10, 0, 50, 0, 500, ActionType::Immediate, 63, false, false),
            Action::PrudentTouch => rec_x(5, 25, 100, 100, 0, ActionType::Immediate, 66, false, false),
            Action::FocusedSynthesis => rec_x(10, 5, 50, 0, 200, ActionType::Immediate, 67, false, false),
            Action::FocusedTouch => rec_x(10, 18, 50, 150, 0, ActionType::Immediate, 68, false, false),
            Action::Reflect => rec_x(10, 6, 100, 100, 0, ActionType::Immediate, 69, false, false),
            Action::PreparatoryTouch => rec_x(
                20,
                40,
                100,
                200,
                0,
                ActionType::Immediate,
                71,
                false,
                false,
            ),
            Action::Groundwork => rec_x(20, 18, 100, 0, 300, ActionType::Immediate, 72, false, false),
            Action::DelicateSynthesis => rec_x(
                10,
                32,
                100,
                100,
                100,
                ActionType::Immediate,
                76,
                false,
                false,
            ),
            Action::IntensiveSynthesis => rec_x(10, 6, 100, 0, 400, ActionType::Immediate, 78, true, true),
            Action::TrainedEye => rec_x(10, 250, 100, 0, 0, ActionType::Immediate, 80, false, false),
            Action::CarefulSynthesis2 => rec_x(
                10,
                7,
                100,
                0,
                180,
                ActionType::Immediate,
                82,
                false,
                false,
            ),
            Action::Groundwork2 => rec_x(20, 18, 100, 0, 360, ActionType::Immediate, 86, false, false),
            Action::AdvancedTouch => rec_x(10, 46, 100, 150, 0, ActionType::Immediate, 84, false, false),
            Action::PrudentSynthesis => rec_x(5, 18, 100, 0, 180, ActionType::Immediate, 88, false, false),
            Action::TrainedFinesse => rec_x(0, 32, 100, 100, 0, ActionType::Immediate, 90, false, false),
            Action::FinalAppraisal => rec_x(
                0,
                1,
                100,
                0,
                0,
                ActionType::Countdown { active_turns: 5 },
                42,
                false,
                false,
            ),
            Action::HeartAndSoul => rec_x(0, 0, 100, 0, 0, ActionType::Immediate, 86, false, false),
            Action::CarefulObservation => rec_x(0, 0, 100, 0, 0, ActionType::Immediate, 55, false, false),
            Action::FocusedTouchCombo => {
                let base = rec_x(10, 25, 100, 150, 0, ActionType::Immediate, 68, false, false);
                ActionDetails {
                    combo: Some(Combo { action_1: Action::Observe, action_2: Action::FocusedTouch }),
                    ..base
                }
            },
            Action::FocusedSynthesisCombo => {
                let base = rec_x(10, 12, 100, 0, 200, ActionType::Immediate, 67, false, false);
                ActionDetails {
                    combo: Some(Combo {
                        action_1: Action::Observe,
                        action_2: Action::FocusedSynthesis,
                    }),
                    ..base
                }
            },
        }
    }
}

} // verus!
