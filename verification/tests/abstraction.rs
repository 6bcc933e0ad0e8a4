use postflop_pipeline::abstraction::{
    build_action_tree, AbstractionError, ActionTreeSpec, BetSizing, Player, Thresholds,
};
use postflop_pipeline::scenario::StartingStreet;

fn sizing(bet: &str, raise: &str) -> BetSizing {
    BetSizing { bet: bet.to_string(), raise: raise.to_string() }
}

fn spec() -> ActionTreeSpec {
    ActionTreeSpec {
        initial_state: StartingStreet::Flop,
        starting_pot: 20,
        effective_stack: 100,
        flop_bet_sizes: [sizing("33%", "2.5x"), sizing("50%", "3x")],
        turn_bet_sizes: [sizing("66%", "a"), sizing("75%", "60%")],
        river_bet_sizes: [sizing("100%", "e"), sizing("150%", "a")],
        turn_donk_sizes: Some("25%".to_string()),
        river_donk_sizes: None,
        thresholds: Thresholds::standard(),
    }
}

#[test]
fn same_sizings_go_to_every_street_and_player() {
    let tree = build_action_tree(
        StartingStreet::Turn,
        20,
        100,
        "50%, 100c",
        "2.5x",
        None,
        Some("50%".to_string()),
        Thresholds::standard(),
    )
    .unwrap();
    assert_eq!(tree.initial_state, StartingStreet::Turn);
    assert_eq!(tree.starting_pot, 20);
    assert_eq!(tree.effective_stack, 100);
    let pair = [sizing("50%, 100c", "2.5x"), sizing("50%, 100c", "2.5x")];
    assert_eq!(tree.flop_bet_sizes, pair);
    assert_eq!(tree.turn_bet_sizes, pair);
    assert_eq!(tree.river_bet_sizes, pair);
    assert_eq!(tree.turn_donk_sizes, None);
    assert_eq!(tree.river_donk_sizes, Some("50%".to_string()));
    assert_eq!(tree.thresholds, Thresholds { add_all_in: 1500, force_all_in: 150, merging: 100 });
}

#[test]
fn pot_and_stack_have_to_be_positive() {
    let build = |pot, stack| {
        build_action_tree(
            StartingStreet::Flop,
            pot,
            stack,
            "50%",
            "50%",
            None,
            None,
            Thresholds::standard(),
        )
    };
    assert_eq!(build(0, 100), Err(AbstractionError::NonPositivePot));
    assert_eq!(build(-20, 100), Err(AbstractionError::NonPositivePot));
    assert_eq!(build(0, 0), Err(AbstractionError::NonPositivePot));
    assert_eq!(build(20, 0), Err(AbstractionError::NonPositiveStack));
    assert_eq!(build(20, -1), Err(AbstractionError::NonPositiveStack));
    assert!(build(1, 1).is_ok());
}

#[test]
fn standard_thresholds_are_in_thousandths() {
    let thresholds = Thresholds::standard();
    assert_eq!(thresholds.add_all_in, 1500);
    assert_eq!(thresholds.force_all_in, 150);
    assert_eq!(thresholds.merging, 100);
}

#[test]
fn players_have_their_places() {
    assert_eq!(Player::OutOfPosition.index(), 0);
    assert_eq!(Player::InPosition.index(), 1);
}

#[test]
fn donk_sizing_applies_to_a_bet_into_the_aggressor() {
    let tree = spec();
    let oop = Player::OutOfPosition;
    let ip = Player::InPosition;
    assert_eq!(tree.opening_sizing(StartingStreet::Turn, oop, Some(ip)), "25%");
    assert_eq!(tree.opening_sizing(StartingStreet::Turn, ip, Some(oop)), "25%");
}

#[test]
fn bet_sizing_applies_where_the_bet_is_no_donk() {
    let tree = spec();
    let oop = Player::OutOfPosition;
    let ip = Player::InPosition;
    assert_eq!(tree.opening_sizing(StartingStreet::Turn, oop, Some(oop)), "66%");
    assert_eq!(tree.opening_sizing(StartingStreet::Turn, oop, None), "66%");
    assert_eq!(tree.opening_sizing(StartingStreet::Turn, ip, Some(ip)), "75%");
    assert_eq!(tree.opening_sizing(StartingStreet::Turn, ip, None), "75%");
}

#[test]
fn bet_sizing_applies_where_there_is_no_donk_sizing() {
    let tree = spec();
    let oop = Player::OutOfPosition;
    let ip = Player::InPosition;
    assert_eq!(tree.opening_sizing(StartingStreet::River, oop, Some(ip)), "100%");
    assert_eq!(tree.opening_sizing(StartingStreet::River, ip, Some(oop)), "150%");
    assert_eq!(tree.opening_sizing(StartingStreet::River, oop, None), "100%");
}

#[test]
fn flop_has_no_donk_sizing() {
    let tree = ActionTreeSpec { river_donk_sizes: Some("10%".to_string()), ..spec() };
    let oop = Player::OutOfPosition;
    let ip = Player::InPosition;
    assert_eq!(tree.opening_sizing(StartingStreet::Flop, oop, Some(ip)), "33%");
    assert_eq!(tree.opening_sizing(StartingStreet::Flop, ip, Some(oop)), "50%");
    assert_eq!(tree.opening_sizing(StartingStreet::River, oop, Some(ip)), "10%");
}

#[test]
fn specification_put_together_by_hand_is_checked() {
    assert_eq!(spec().validate(), Ok(()));
    assert_eq!(
        ActionTreeSpec { starting_pot: 0, ..spec() }.validate(),
        Err(AbstractionError::NonPositivePot)
    );
    assert_eq!(
        ActionTreeSpec { starting_pot: -5, effective_stack: -5, ..spec() }.validate(),
        Err(AbstractionError::NonPositivePot)
    );
    assert_eq!(
        ActionTreeSpec { effective_stack: 0, ..spec() }.validate(),
        Err(AbstractionError::NonPositiveStack)
    );
}
