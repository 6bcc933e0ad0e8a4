use postflop_pipeline::abstraction::{AbstractionError, Thresholds};
use postflop_pipeline::card::NOT_DEALT;
use postflop_pipeline::pipeline::{
    check_cards, plan_job, PipelineConfig, PipelineError, Stage,
};
use postflop_pipeline::scenario::{
    CardSpec, ConfigError, Field, RawScenario, StartingStreet,
};

fn cards(flop: [u8; 3], turn: u8, river: u8) -> CardSpec {
    CardSpec { oop_range: "AA".to_string(), ip_range: "KK".to_string(), flop, turn, river }
}

fn job() -> RawScenario {
    RawScenario {
        oop_range: Some("AA".to_string()),
        ip_range: Some("KK".to_string()),
        flop: Some("Td9d6h".to_string()),
        turn: Some("Qc".to_string()),
        river: Some("2s".to_string()),
        starting_pot: Some(60),
        effective_stack: Some(970),
        bet_size: Some("33%, 75%".to_string()),
        raise_size: Some("3x".to_string()),
    }
}

#[test]
fn cards_that_go_together_pass() {
    assert_eq!(check_cards(&cards([18, 29, 33], NOT_DEALT, NOT_DEALT), StartingStreet::Flop), Ok(()));
    assert_eq!(check_cards(&cards([33, 18, 29], 40, NOT_DEALT), StartingStreet::Turn), Ok(()));
    assert_eq!(check_cards(&cards([0, 1, 2], 3, 51), StartingStreet::River), Ok(()));
}

#[test]
fn card_that_is_no_card_is_named() {
    assert_eq!(
        check_cards(&cards([18, 29, 52], NOT_DEALT, NOT_DEALT), StartingStreet::Flop),
        Err(ConfigError::Malformed(Field::Flop))
    );
    assert_eq!(
        check_cards(&cards([NOT_DEALT, 29, 33], NOT_DEALT, NOT_DEALT), StartingStreet::Flop),
        Err(ConfigError::Malformed(Field::Flop))
    );
    assert_eq!(
        check_cards(&cards([18, 29, 33], 52, NOT_DEALT), StartingStreet::Turn),
        Err(ConfigError::Malformed(Field::Turn))
    );
    assert_eq!(
        check_cards(&cards([18, 29, 33], 40, 254), StartingStreet::River),
        Err(ConfigError::Malformed(Field::River))
    );
}

#[test]
fn river_without_turn_does_not_pass() {
    assert_eq!(
        check_cards(&cards([18, 29, 33], NOT_DEALT, 3), StartingStreet::River),
        Err(ConfigError::RiverWithoutTurn)
    );
    assert_eq!(
        check_cards(&cards([18, 29, 33], NOT_DEALT, 3), StartingStreet::Flop),
        Err(ConfigError::RiverWithoutTurn)
    );
}

#[test]
fn card_on_the_board_twice_is_named() {
    assert_eq!(
        check_cards(&cards([18, 18, 33], NOT_DEALT, NOT_DEALT), StartingStreet::Flop),
        Err(ConfigError::Duplicate(Field::Flop))
    );
    assert_eq!(
        check_cards(&cards([18, 29, 18], NOT_DEALT, NOT_DEALT), StartingStreet::Flop),
        Err(ConfigError::Duplicate(Field::Flop))
    );
    assert_eq!(
        check_cards(&cards([18, 29, 29], NOT_DEALT, NOT_DEALT), StartingStreet::Flop),
        Err(ConfigError::Duplicate(Field::Flop))
    );
    for turn in [18, 29, 33] {
        assert_eq!(
            check_cards(&cards([18, 29, 33], turn, NOT_DEALT), StartingStreet::Turn),
            Err(ConfigError::Duplicate(Field::Turn))
        );
    }
    for river in [18, 29, 33, 40] {
        assert_eq!(
            check_cards(&cards([18, 29, 33], 40, river), StartingStreet::River),
            Err(ConfigError::Duplicate(Field::River))
        );
    }
}

#[test]
fn street_has_to_be_the_one_of_the_board() {
    assert_eq!(
        check_cards(&cards([18, 29, 33], NOT_DEALT, NOT_DEALT), StartingStreet::Turn),
        Err(ConfigError::StreetMismatch)
    );
    assert_eq!(
        check_cards(&cards([18, 29, 33], 40, NOT_DEALT), StartingStreet::Flop),
        Err(ConfigError::StreetMismatch)
    );
    assert_eq!(
        check_cards(&cards([18, 29, 33], 40, 3), StartingStreet::Turn),
        Err(ConfigError::StreetMismatch)
    );
}

#[test]
fn batch_settings_are_the_standard_ones() {
    let config = PipelineConfig::batch();
    assert_eq!(config.max_iterations, 10_000);
    assert_eq!(config.thresholds, Thresholds::standard());
    assert_eq!(config.turn_donk_sizes, None);
    assert_eq!(config.river_donk_sizes, Some("50%".to_string()));
    assert!(config.report_pot_and_stack);
}

#[test]
fn river_job_is_planned() {
    let config = PipelineConfig {
        max_iterations: 250,
        thresholds: Thresholds { add_all_in: 2000, force_all_in: 200, merging: 50 },
        turn_donk_sizes: Some("20%".to_string()),
        river_donk_sizes: None,
        report_pot_and_stack: false,
    };
    let plan = plan_job(job(), config).unwrap();
    assert_eq!(plan.cards, cards([18, 29, 33], 40, 3));
    assert_eq!(plan.tree.initial_state, StartingStreet::River);
    assert_eq!(plan.tree.starting_pot, 60);
    assert_eq!(plan.tree.effective_stack, 970);
    assert_eq!(plan.tree.river_bet_sizes[0].bet, "33%, 75%");
    assert_eq!(plan.tree.river_bet_sizes[1].raise, "3x");
    assert_eq!(plan.tree.turn_donk_sizes, Some("20%".to_string()));
    assert_eq!(plan.tree.river_donk_sizes, None);
    assert_eq!(
        plan.tree.thresholds,
        Thresholds { add_all_in: 2000, force_all_in: 200, merging: 50 }
    );
    assert_eq!(plan.max_iterations, 250);
    assert_eq!(plan.target, 300_000);
    assert!(!plan.report_pot_and_stack);
}

#[test]
fn first_fault_ends_the_plan() {
    let config = PipelineConfig::batch;
    assert_eq!(
        plan_job(RawScenario { flop: None, starting_pot: Some(0), ..job() }, config()),
        Err(PipelineError::Configuration(ConfigError::Missing(Field::Flop)))
    );
    assert_eq!(
        plan_job(RawScenario { turn: Some("Td".to_string()), ..job() }, config()),
        Err(PipelineError::Configuration(ConfigError::Duplicate(Field::Turn)))
    );
    assert_eq!(
        plan_job(RawScenario { river: Some("Qc".to_string()), ..job() }, config()),
        Err(PipelineError::Configuration(ConfigError::Duplicate(Field::River)))
    );
    assert_eq!(
        plan_job(RawScenario { river: Some("6h".to_string()), starting_pot: Some(0), ..job() }, config()),
        Err(PipelineError::Configuration(ConfigError::Duplicate(Field::River)))
    );
    assert_eq!(
        plan_job(RawScenario { starting_pot: Some(-1), effective_stack: Some(0), ..job() }, config()),
        Err(PipelineError::Abstraction(AbstractionError::NonPositivePot))
    );
    assert_eq!(
        plan_job(RawScenario { effective_stack: Some(0), ..job() }, config()),
        Err(PipelineError::Abstraction(AbstractionError::NonPositiveStack))
    );
}

#[test]
fn fault_names_its_stage_and_field() {
    let missing = PipelineError::Configuration(ConfigError::Missing(Field::Flop));
    assert_eq!(missing.stage(), Stage::Normalize);
    assert_eq!(missing.field(), Some(Field::Flop));
    let malformed = PipelineError::Configuration(ConfigError::Malformed(Field::Turn));
    assert_eq!(malformed.stage(), Stage::Normalize);
    assert_eq!(malformed.field(), Some(Field::Turn));
    let river = PipelineError::Configuration(ConfigError::RiverWithoutTurn);
    assert_eq!(river.stage(), Stage::Normalize);
    assert_eq!(river.field(), Some(Field::River));
    let twice = PipelineError::Configuration(ConfigError::Duplicate(Field::River));
    assert_eq!(twice.stage(), Stage::Build);
    assert_eq!(twice.field(), Some(Field::River));
    let street = PipelineError::Configuration(ConfigError::StreetMismatch);
    assert_eq!(street.stage(), Stage::Build);
    assert_eq!(street.field(), None);
    let pot = PipelineError::Abstraction(AbstractionError::NonPositivePot);
    assert_eq!(pot.stage(), Stage::Abstraction);
    assert_eq!(pot.field(), Some(Field::StartingPot));
    let stack = PipelineError::Abstraction(AbstractionError::NonPositiveStack);
    assert_eq!(stack.stage(), Stage::Abstraction);
    assert_eq!(stack.field(), Some(Field::EffectiveStack));
    let engine = PipelineError::Engine(Stage::Solve);
    assert_eq!(engine.stage(), Stage::Solve);
    assert_eq!(engine.field(), None);
}
