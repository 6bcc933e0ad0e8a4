//! From a job to what a solve needs, and the faults that end a job.
//!
//! A job runs through its stages in order, and the first fault ends it: no
//! stage makes up a value for a field that was given and could not be used.

use vstd::prelude::*;
use vstd::string::StringExecFns;
use crate::abstraction::{build_action_tree, AbstractionError, ActionTreeSpec, Thresholds};
use crate::card::{cards_of_flop_text, is_dealt, is_flop_of_text, Card, NOT_DEALT, NUM_CARDS};
use crate::scenario::{
    board_card_of, fault_of, normalize, street_of, CardSpec, ConfigError, Field, RawScenario,
    RawView, StartingStreet,
};
use crate::solve::{target_exploitability, target_of};

verus! {

/// The stages of a job.
#[derive(Clone, Copy, Debug, PartialEq, Eq, Structural)]
pub enum Stage {
    Normalize,
    Abstraction,
    Build,
    Solve,
    Serialize,
}

/// Why a job ended without a result.
#[derive(Clone, Copy, Debug, PartialEq, Eq, Structural)]
pub enum PipelineError {
    /// The job is no scenario, or its cards do not go together.
    Configuration(ConfigError),
    /// The betting abstraction cannot be built.
    Abstraction(AbstractionError),
    /// The solver reported a failure at this stage.
    Engine(Stage),
}

impl PipelineError {
    /// The stage at which the job ended.
    pub open spec fn stage_of(self) -> Stage {
        match self {
            PipelineError::Configuration(ConfigError::Duplicate(_)) => Stage::Build,
            PipelineError::Configuration(ConfigError::StreetMismatch) => Stage::Build,
            PipelineError::Configuration(_) => Stage::Normalize,
            PipelineError::Abstraction(_) => Stage::Abstraction,
            PipelineError::Engine(stage) => stage,
        }
    }

    /// The stage at which the job ended.
    pub fn stage(&self) -> (stage: Stage)
        ensures
            stage == self.stage_of(),
    {
        match self {
            PipelineError::Configuration(ConfigError::Duplicate(_)) => Stage::Build,
            PipelineError::Configuration(ConfigError::StreetMismatch) => Stage::Build,
            PipelineError::Configuration(_) => Stage::Normalize,
            PipelineError::Abstraction(_) => Stage::Abstraction,
            PipelineError::Engine(stage) => *stage,
        }
    }

    /// The field that is at fault, where the fault lies in one.
    pub open spec fn field_of(self) -> Option<Field> {
        match self {
            PipelineError::Configuration(ConfigError::Missing(field)) => Some(field),
            PipelineError::Configuration(ConfigError::Malformed(field)) => Some(field),
            PipelineError::Configuration(ConfigError::Duplicate(field)) => Some(field),
            PipelineError::Configuration(ConfigError::RiverWithoutTurn) => Some(Field::River),
            PipelineError::Abstraction(AbstractionError::NonPositivePot) => Some(
                Field::StartingPot,
            ),
            PipelineError::Abstraction(AbstractionError::NonPositiveStack) => Some(
                Field::EffectiveStack,
            ),
            _ => None,
        }
    }

    /// The field that is at fault, where the fault lies in one.
    pub fn field(&self) -> (field: Option<Field>)
        ensures
            field == self.field_of(),
    {
        match self {
            PipelineError::Configuration(ConfigError::Missing(field)) => Some(*field),
            PipelineError::Configuration(ConfigError::Malformed(field)) => Some(*field),
            PipelineError::Configuration(ConfigError::Duplicate(field)) => Some(*field),
            PipelineError::Configuration(ConfigError::RiverWithoutTurn) => Some(Field::River),
            PipelineError::Abstraction(AbstractionError::NonPositivePot) => Some(
                Field::StartingPot,
            ),
            PipelineError::Abstraction(AbstractionError::NonPositiveStack) => Some(
                Field::EffectiveStack,
            ),
            _ => None,
        }
    }
}

/// The first fault among the cards of a board that begins at `street`: a
/// card that is no card, a river without a turn, a card that is on the board
/// twice, or a street that is not the one the board begins at.
pub open spec fn card_fault_of(
    flop: [Card; 3],
    turn: Card,
    river: Card,
    street: StartingStreet,
) -> Option<ConfigError> {
    if flop[0] >= NUM_CARDS || flop[1] >= NUM_CARDS || flop[2] >= NUM_CARDS {
        Some(ConfigError::Malformed(Field::Flop))
    } else if is_dealt(turn) && turn >= NUM_CARDS {
        Some(ConfigError::Malformed(Field::Turn))
    } else if is_dealt(river) && river >= NUM_CARDS {
        Some(ConfigError::Malformed(Field::River))
    } else if is_dealt(river) && !is_dealt(turn) {
        Some(ConfigError::RiverWithoutTurn)
    } else if flop[0] == flop[1] || flop[0] == flop[2] || flop[1] == flop[2] {
        Some(ConfigError::Duplicate(Field::Flop))
    } else if is_dealt(turn) && (turn == flop[0] || turn == flop[1] || turn == flop[2]) {
        Some(ConfigError::Duplicate(Field::Turn))
    } else if is_dealt(river) && (river == flop[0] || river == flop[1] || river == flop[2]
        || river == turn) {
        Some(ConfigError::Duplicate(Field::River))
    } else if street != street_of(turn, river) {
        Some(ConfigError::StreetMismatch)
    } else {
        None
    }
}

/// Checks that the cards of a board go together and that the board begins at
/// `street`; names the first fault otherwise.
pub fn check_cards(cards: &CardSpec, street: StartingStreet) -> (outcome: Result<(), ConfigError>)
    ensures
        match outcome {
            Ok(_) => card_fault_of(cards.flop, cards.turn, cards.river, street) is None,
            Err(fault) => card_fault_of(cards.flop, cards.turn, cards.river, street) == Some(
                fault,
            ),
        },
{
    let a = cards.flop[0];
    let b = cards.flop[1];
    let c = cards.flop[2];
    let turn = cards.turn;
    let river = cards.river;
    if a >= NUM_CARDS || b >= NUM_CARDS || c >= NUM_CARDS {
        Err(ConfigError::Malformed(Field::Flop))
    } else if turn != NOT_DEALT && turn >= NUM_CARDS {
        Err(ConfigError::Malformed(Field::Turn))
    } else if river != NOT_DEALT && river >= NUM_CARDS {
        Err(ConfigError::Malformed(Field::River))
    } else if river != NOT_DEALT && turn == NOT_DEALT {
        Err(ConfigError::RiverWithoutTurn)
    } else if a == b || a == c || b == c {
        Err(ConfigError::Duplicate(Field::Flop))
    } else if turn != NOT_DEALT && (turn == a || turn == b || turn == c) {
        Err(ConfigError::Duplicate(Field::Turn))
    } else if river != NOT_DEALT && (river == a || river == b || river == c || river == turn) {
        Err(ConfigError::Duplicate(Field::River))
    } else {
        let begins = if river != NOT_DEALT {
            StartingStreet::River
        } else if turn != NOT_DEALT {
            StartingStreet::Turn
        } else {
            StartingStreet::Flop
        };
        if street != begins {
            Err(ConfigError::StreetMismatch)
        } else {
            Ok(())
        }
    }
}

/// How a job is to be run: the cap on iterations, the thresholds, the donk
/// sizings of the turn and the river, and whether the pot and the stack of
/// every decision are written out.
#[derive(Clone, Debug, PartialEq, Eq)]
pub struct PipelineConfig {
    pub max_iterations: u32,
    pub thresholds: Thresholds,
    pub turn_donk_sizes: Option<String>,
    pub river_donk_sizes: Option<String>,
    pub report_pot_and_stack: bool,
}

impl PipelineConfig {
    /// The settings of a batch job: ten thousand iterations at most, the
    /// standard thresholds, no donk sizing on the turn, half the pot on the
    /// river, pot and stack written out.
    pub fn batch() -> (config: Self)
        ensures
            config.max_iterations == 10_000,
            config.thresholds == (Thresholds { add_all_in: 1500, force_all_in: 150, merging: 100 }),
            config.turn_donk_sizes is None,
            config.river_donk_sizes is Some,
            config.river_donk_sizes->0@ == "50%"@,
            config.report_pot_and_stack,
    {
        PipelineConfig {
            max_iterations: 10_000,
            thresholds: Thresholds::standard(),
            turn_donk_sizes: None,
            river_donk_sizes: Some(String::from_str("50%")),
            report_pot_and_stack: true,
        }
    }
}

/// What a job needs after its fields were read: the cards, the betting
/// abstraction, the cap on iterations, the target exploitability in
/// millionths of a chip, and whether pot and stack are written out.
#[derive(Clone, Debug, PartialEq, Eq)]
pub struct JobPlan {
    pub cards: CardSpec,
    pub tree: ActionTreeSpec,
    pub max_iterations: u32,
    pub target: u64,
    pub report_pot_and_stack: bool,
}

/// The fault that ends the job `raw` before the solve, if there is one: a
/// fault of its fields, else a turn or a river that is on the board already,
/// else a pot or a stack that is not positive.
pub open spec fn plan_fault_of(raw: RawView) -> Option<PipelineError> {
    if fault_of(raw) is Some {
        Some(PipelineError::Configuration(fault_of(raw)->0))
    } else {
        let flop = cards_of_flop_text(raw.flop->0)->0;
        let turn = board_card_of(raw.turn)->0;
        let river = board_card_of(raw.river)->0;
        if is_dealt(turn) && (turn == flop.0 || turn == flop.1 || turn == flop.2) {
            Some(PipelineError::Configuration(ConfigError::Duplicate(Field::Turn)))
        } else if is_dealt(river) && (river == flop.0 || river == flop.1 || river == flop.2
            || river == turn) {
            Some(PipelineError::Configuration(ConfigError::Duplicate(Field::River)))
        } else if raw.starting_pot->0 <= 0 {
            Some(PipelineError::Abstraction(AbstractionError::NonPositivePot))
        } else if raw.effective_stack->0 <= 0 {
            Some(PipelineError::Abstraction(AbstractionError::NonPositiveStack))
        } else {
            None
        }
    }
}

/// Whether `plan` is what the faultless job `raw` asks for under `config`.
pub open spec fn is_plan_of(plan: JobPlan, raw: RawView, config: PipelineConfig) -> bool {
    &&& raw.oop_range == Some(plan.cards.oop_range@)
    &&& raw.ip_range == Some(plan.cards.ip_range@)
    &&& raw.flop is Some
    &&& is_flop_of_text(plan.cards.flop, raw.flop->0)
    &&& board_card_of(raw.turn) == Some(plan.cards.turn)
    &&& board_card_of(raw.river) == Some(plan.cards.river)
    &&& plan.tree.initial_state == street_of(plan.cards.turn, plan.cards.river)
    &&& raw.starting_pot == Some(plan.tree.starting_pot as i64)
    &&& raw.effective_stack == Some(plan.tree.effective_stack as i64)
    &&& raw.bet_size is Some
    &&& raw.raise_size is Some
    &&& plan.tree.is_uniform(raw.bet_size->0, raw.raise_size->0)
    &&& plan.tree.turn_donk_sizes == config.turn_donk_sizes
    &&& plan.tree.river_donk_sizes == config.river_donk_sizes
    &&& plan.tree.thresholds == config.thresholds
    &&& plan.tree.well_formed()
    &&& plan.max_iterations == config.max_iterations
    &&& plan.target == target_of(plan.tree.starting_pot as int)
    &&& plan.report_pot_and_stack == config.report_pot_and_stack
}

/// Plans a job: normalizes its fields, checks its cards, builds the betting
/// abstraction with the same two sizings for both players on all streets, and
/// sets the target to half a percent of the pot. The first fault ends it.
pub fn plan_job(raw: RawScenario, config: PipelineConfig) -> (outcome: Result<
    JobPlan,
    PipelineError,
>)
    ensures
        match outcome {
            Ok(plan) => plan_fault_of(raw@) is None && is_plan_of(plan, raw@, config),
            Err(fault) => plan_fault_of(raw@) == Some(fault),
        },
{
    let scenario = match normalize(raw) {
        Ok(scenario) => scenario,
        Err(fault) => {
            return Err(PipelineError::Configuration(fault));
        },
    };
    match check_cards(&scenario.cards, scenario.street) {
        Ok(_) => {},
        Err(fault) => {
            return Err(PipelineError::Configuration(fault));
        },
    }
    let PipelineConfig {
        max_iterations,
        thresholds,
        turn_donk_sizes,
        river_donk_sizes,
        report_pot_and_stack,
    } = config;
    let tree = match build_action_tree(
        scenario.street,
        scenario.starting_pot,
        scenario.effective_stack,
        scenario.bet_size.as_str(),
        scenario.raise_size.as_str(),
        turn_donk_sizes,
        river_donk_sizes,
        thresholds,
    ) {
        Ok(tree) => tree,
        Err(fault) => {
            return Err(PipelineError::Abstraction(fault));
        },
    };
    let target = target_exploitability(scenario.starting_pot);
    Ok(JobPlan { cards: scenario.cards, tree, max_iterations, target, report_pot_and_stack })
}

} // verus!
