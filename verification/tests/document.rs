use postflop_pipeline::abstraction::{AbstractionError, Thresholds};
use postflop_pipeline::card::NOT_DEALT;
use postflop_pipeline::document::{normalize_document, plan_document, read_scenario};
use postflop_pipeline::pipeline::{PipelineConfig, PipelineError};
use postflop_pipeline::scenario::{ConfigError, Field, RawScenario, StartingStreet};

fn parse(text: &str) -> serde_json::Value {
    serde_json::from_str(text).unwrap()
}

const JOB: &str = r#"{
    "oop_range": "66+,A8s+",
    "ip_range": "QQ-22,AQs-A2s",
    "flop": "Td9d6h",
    "starting_pot": 20,
    "effective_stack": 100,
    "bet_size": "50%",
    "raise_size": "50%"
}"#;

#[test]
fn fields_are_read_by_their_names() {
    let raw = read_scenario(&parse(
        r#"{
            "oop_range": "AA", "ip_range": "KK", "flop": "Td9d6h", "turn": "Qc",
            "river": "2s", "starting_pot": 20, "effective_stack": 100,
            "bet_size": "50%, 100c", "raise_size": "2.5x", "more": true
        }"#,
    ));
    assert_eq!(
        raw,
        RawScenario {
            oop_range: Some("AA".to_string()),
            ip_range: Some("KK".to_string()),
            flop: Some("Td9d6h".to_string()),
            turn: Some("Qc".to_string()),
            river: Some("2s".to_string()),
            starting_pot: Some(20),
            effective_stack: Some(100),
            bet_size: Some("50%, 100c".to_string()),
            raise_size: Some("2.5x".to_string()),
        }
    );
}

#[test]
fn member_of_another_type_counts_as_not_there() {
    let raw = read_scenario(&parse(
        r#"{
            "oop_range": 5, "ip_range": null, "flop": ["Td", "9d", "6h"], "turn": 7,
            "river": false, "starting_pot": "20", "effective_stack": 100.5,
            "bet_size": {"a": 1}, "raise_size": 1
        }"#,
    ));
    assert_eq!(
        raw,
        RawScenario {
            oop_range: None,
            ip_range: None,
            flop: None,
            turn: None,
            river: None,
            starting_pot: None,
            effective_stack: None,
            bet_size: None,
            raise_size: None,
        }
    );
}

#[test]
fn document_that_is_no_object_has_no_fields() {
    for text in ["null", "[1, 2]", "\"turn\"", "17", "true"] {
        let raw = read_scenario(&parse(text));
        assert_eq!(raw.oop_range, None);
        assert_eq!(raw.turn, None);
        assert_eq!(raw.starting_pot, None);
        assert_eq!(
            normalize_document(&parse(text)),
            Err(ConfigError::Missing(Field::OopRange))
        );
    }
}

#[test]
fn integers_are_read_as_far_as_they_fit() {
    let raw = read_scenario(&parse(
        r#"{"starting_pot": 9223372036854775807, "effective_stack": 9223372036854775808}"#,
    ));
    assert_eq!(raw.starting_pot, Some(i64::MAX));
    assert_eq!(raw.effective_stack, None);
    let raw = read_scenario(&parse(
        r#"{"starting_pot": -9223372036854775808, "effective_stack": -3}"#,
    ));
    assert_eq!(raw.starting_pot, Some(i64::MIN));
    assert_eq!(raw.effective_stack, Some(-3));
}

#[test]
fn document_becomes_a_scenario() {
    let scenario = normalize_document(&parse(JOB)).unwrap();
    assert_eq!(scenario.street, StartingStreet::Flop);
    assert_eq!(scenario.cards.oop_range, "66+,A8s+");
    assert_eq!(scenario.cards.ip_range, "QQ-22,AQs-A2s");
    assert_eq!(scenario.cards.flop, [18, 29, 33]);
    assert_eq!(scenario.cards.turn, NOT_DEALT);
    assert_eq!(scenario.cards.river, NOT_DEALT);
    assert_eq!(scenario.starting_pot, 20);
    assert_eq!(scenario.effective_stack, 100);
    assert_eq!(scenario.bet_size, "50%");
    assert_eq!(scenario.raise_size, "50%");
}

#[test]
fn document_with_a_river_and_no_turn_is_refused() {
    let doc = parse(
        r#"{"oop_range": "AA", "ip_range": "KK", "flop": "Td9d6h", "river": "2s",
            "starting_pot": 20, "effective_stack": 100, "bet_size": "50%", "raise_size": "50%"}"#,
    );
    assert_eq!(normalize_document(&doc), Err(ConfigError::RiverWithoutTurn));
    assert_eq!(
        plan_document(&doc, PipelineConfig::batch()),
        Err(PipelineError::Configuration(ConfigError::RiverWithoutTurn))
    );
}

#[test]
fn flop_job_is_planned_with_the_standard_thresholds() {
    let doc = parse(
        r#"{"oop_range": "random hands", "ip_range": "random hands", "flop": "Td9d6h",
            "starting_pot": 20, "effective_stack": 100, "bet_size": "50%", "raise_size": "50%"}"#,
    );
    let plan = plan_document(&doc, PipelineConfig::batch()).unwrap();
    assert_eq!(plan.tree.initial_state, StartingStreet::Flop);
    assert_eq!(plan.tree.starting_pot, 20);
    assert_eq!(plan.tree.effective_stack, 100);
    assert_eq!(
        plan.tree.thresholds,
        Thresholds { add_all_in: 1500, force_all_in: 150, merging: 100 }
    );
    for pair in [&plan.tree.flop_bet_sizes, &plan.tree.turn_bet_sizes, &plan.tree.river_bet_sizes]
    {
        for sizing in pair.iter() {
            assert_eq!(sizing.bet, "50%");
            assert_eq!(sizing.raise, "50%");
        }
    }
    assert_eq!(plan.tree.turn_donk_sizes, None);
    assert_eq!(plan.tree.river_donk_sizes, Some("50%".to_string()));
    assert_eq!(plan.cards.oop_range, "random hands");
    assert_eq!(plan.cards.ip_range, "random hands");
    assert_eq!(plan.cards.flop, [18, 29, 33]);
    assert_eq!(plan.cards.turn, NOT_DEALT);
    assert_eq!(plan.cards.river, NOT_DEALT);
    assert_eq!(plan.max_iterations, 10_000);
    // half a percent of 20 chips is a tenth of a chip
    assert_eq!(plan.target, 100_000);
    assert!(plan.report_pot_and_stack);
}

#[test]
fn document_with_a_pot_of_zero_is_refused() {
    let doc = parse(
        r#"{"oop_range": "AA", "ip_range": "KK", "flop": "Td9d6h",
            "starting_pot": 0, "effective_stack": 100, "bet_size": "50%", "raise_size": "50%"}"#,
    );
    assert_eq!(
        plan_document(&doc, PipelineConfig::batch()),
        Err(PipelineError::Abstraction(AbstractionError::NonPositivePot))
    );
}
