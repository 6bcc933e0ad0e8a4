//! From the fields of a job to a canonical scenario.
//!
//! The two ranges, the flop, the pot, the stack and the two sizings are
//! mandatory. The turn and the river are optional: a missing one is a card
//! that has not been dealt, while one that is present and cannot be read is a
//! fault. A river without a turn is never accepted.

use vstd::prelude::*;
use crate::card::{
    card_from_str, card_of_text, flop_from_str, is_dealt, is_flop_of_text, is_flop_text, Card,
    NOT_DEALT, NUM_CARDS,
};

verus! {

/// The betting round at which a scenario begins.
#[derive(Clone, Copy, Debug, PartialEq, Eq, Structural)]
pub enum StartingStreet {
    Flop,
    Turn,
    River,
}

/// The street that a board begins at: the river if the river is dealt, else
/// the turn if the turn is dealt, else the flop.
pub open spec fn street_of(turn: Card, river: Card) -> StartingStreet {
    if is_dealt(river) {
        StartingStreet::River
    } else if is_dealt(turn) {
        StartingStreet::Turn
    } else {
        StartingStreet::Flop
    }
}

/// The street that a board with this turn and river begins at.
pub fn starting_street(turn: Card, river: Card) -> (street: StartingStreet)
    ensures
        street == street_of(turn, river),
{
    if river != NOT_DEALT {
        StartingStreet::River
    } else if turn != NOT_DEALT {
        StartingStreet::Turn
    } else {
        StartingStreet::Flop
    }
}

impl StartingStreet {
    /// The name of the street, as it is written out.
    pub fn name(&self) -> (name: &'static str)
        ensures
            name@ == match self {
                StartingStreet::Flop => "Flop"@,
                StartingStreet::Turn => "Turn"@,
                StartingStreet::River => "River"@,
            },
    {
        match self {
            StartingStreet::Flop => "Flop",
            StartingStreet::Turn => "Turn",
            StartingStreet::River => "River",
        }
    }
}

/// The fields of a job.
#[derive(Clone, Copy, Debug, PartialEq, Eq, Structural)]
pub enum Field {
    OopRange,
    IpRange,
    Flop,
    Turn,
    River,
    StartingPot,
    EffectiveStack,
    BetSize,
    RaiseSize,
    DonkSize,
}

/// Why a job is not a scenario.
#[derive(Clone, Copy, Debug, PartialEq, Eq, Structural)]
pub enum ConfigError {
    /// A mandatory field is not there.
    Missing(Field),
    /// A field is there and cannot be read.
    Malformed(Field),
    /// A river is given and no turn.
    RiverWithoutTurn,
    /// The card or cards of a field are on the board already.
    Duplicate(Field),
    /// The street is not the one that the board begins at.
    StreetMismatch,
}

/// The fields of a job as they were found: each one present or not.
#[derive(Clone, Debug, PartialEq, Eq)]
pub struct RawScenario {
    pub oop_range: Option<String>,
    pub ip_range: Option<String>,
    pub flop: Option<String>,
    pub turn: Option<String>,
    pub river: Option<String>,
    pub starting_pot: Option<i64>,
    pub effective_stack: Option<i64>,
    pub bet_size: Option<String>,
    pub raise_size: Option<String>,
}

/// The mathematical value of a [`RawScenario`].
pub struct RawView {
    pub oop_range: Option<Seq<char>>,
    pub ip_range: Option<Seq<char>>,
    pub flop: Option<Seq<char>>,
    pub turn: Option<Seq<char>>,
    pub river: Option<Seq<char>>,
    pub starting_pot: Option<i64>,
    pub effective_stack: Option<i64>,
    pub bet_size: Option<Seq<char>>,
    pub raise_size: Option<Seq<char>>,
}

/// The text of a field, if the field is there.
pub open spec fn text_view(field: Option<String>) -> Option<Seq<char>> {
    match field {
        Some(text) => Some(text@),
        None => None,
    }
}

impl View for RawScenario {
    type V = RawView;

    open spec fn view(&self) -> RawView {
        RawView {
            oop_range: text_view(self.oop_range),
            ip_range: text_view(self.ip_range),
            flop: text_view(self.flop),
            turn: text_view(self.turn),
            river: text_view(self.river),
            starting_pot: self.starting_pot,
            effective_stack: self.effective_stack,
            bet_size: text_view(self.bet_size),
            raise_size: text_view(self.raise_size),
        }
    }
}

/// The ranges and the board of a scenario. A board card that has not been
/// dealt is [`NOT_DEALT`].
#[derive(Clone, Debug, PartialEq, Eq)]
pub struct CardSpec {
    pub oop_range: String,
    pub ip_range: String,
    pub flop: [Card; 3],
    pub turn: Card,
    pub river: Card,
}

impl CardSpec {
    /// A river is only there with a turn.
    pub open spec fn river_follows_turn(self) -> bool {
        is_dealt(self.river) ==> is_dealt(self.turn)
    }
}

/// A job in canonical form.
#[derive(Clone, Debug, PartialEq, Eq)]
pub struct Scenario {
    pub cards: CardSpec,
    pub street: StartingStreet,
    pub starting_pot: i32,
    pub effective_stack: i32,
    pub bet_size: String,
    pub raise_size: String,
}

/// What an optional board card is read as: a missing one has not been dealt;
/// `None` if the text is there and names no card.
pub open spec fn board_card_of(text: Option<Seq<char>>) -> Option<Card> {
    match text {
        None => Some(NOT_DEALT),
        Some(t) => card_of_text(t),
    }
}

/// Whether a number of chips fits the scenario's chip type.
pub open spec fn fits_chips(value: i64) -> bool {
    i32::MIN <= value <= i32::MAX
}

/// The first fault of a job, going through its fields in their order; `None`
/// if the job is a scenario.
pub open spec fn fault_of(raw: RawView) -> Option<ConfigError> {
    if raw.oop_range is None {
        Some(ConfigError::Missing(Field::OopRange))
    } else if raw.ip_range is None {
        Some(ConfigError::Missing(Field::IpRange))
    } else if raw.flop is None {
        Some(ConfigError::Missing(Field::Flop))
    } else if !is_flop_text(raw.flop->0) {
        Some(ConfigError::Malformed(Field::Flop))
    } else if board_card_of(raw.turn) is None {
        Some(ConfigError::Malformed(Field::Turn))
    } else if board_card_of(raw.river) is None {
        Some(ConfigError::Malformed(Field::River))
    } else if is_dealt(board_card_of(raw.river)->0) && !is_dealt(board_card_of(raw.turn)->0) {
        Some(ConfigError::RiverWithoutTurn)
    } else if raw.starting_pot is None {
        Some(ConfigError::Missing(Field::StartingPot))
    } else if !fits_chips(raw.starting_pot->0) {
        Some(ConfigError::Malformed(Field::StartingPot))
    } else if raw.effective_stack is None {
        Some(ConfigError::Missing(Field::EffectiveStack))
    } else if !fits_chips(raw.effective_stack->0) {
        Some(ConfigError::Malformed(Field::EffectiveStack))
    } else if raw.bet_size is None {
        Some(ConfigError::Missing(Field::BetSize))
    } else if raw.raise_size is None {
        Some(ConfigError::Missing(Field::RaiseSize))
    } else {
        None
    }
}

/// Whether `scenario` is the canonical form of the faultless job `raw`.
pub open spec fn is_scenario_of(scenario: Scenario, raw: RawView) -> bool {
    &&& raw.oop_range == Some(scenario.cards.oop_range@)
    &&& raw.ip_range == Some(scenario.cards.ip_range@)
    &&& raw.flop is Some
    &&& is_flop_of_text(scenario.cards.flop, raw.flop->0)
    &&& board_card_of(raw.turn) == Some(scenario.cards.turn)
    &&& board_card_of(raw.river) == Some(scenario.cards.river)
    &&& scenario.street == street_of(scenario.cards.turn, scenario.cards.river)
    &&& raw.starting_pot == Some(scenario.starting_pot as i64)
    &&& raw.effective_stack == Some(scenario.effective_stack as i64)
    &&& raw.bet_size == Some(scenario.bet_size@)
    &&& raw.raise_size == Some(scenario.raise_size@)
}

/// Reads an optional board card: a missing one has not been dealt.
pub fn board_card(text: &Option<String>) -> (card: Option<Card>)
    ensures
        card == board_card_of(text_view(*text)),
        card matches Some(id) ==> id < NUM_CARDS || id == NOT_DEALT,
{
    match text {
        None => Some(NOT_DEALT),
        Some(t) => card_from_str(t.as_str()),
    }
}

fn chips(value: Option<i64>, field: Field) -> (amount: Result<i32, ConfigError>)
    ensures
        match amount {
            Ok(a) => value == Some(a as i64),
            Err(e) => e == (match value {
                None => ConfigError::Missing(field),
                Some(v) => ConfigError::Malformed(field),
            }) && !(value matches Some(v) && fits_chips(v)),
        },
{
    match value {
        None => Err(ConfigError::Missing(field)),
        Some(v) => if v < -2147483648 || v > 2147483647 {
            Err(ConfigError::Malformed(field))
        } else {
            Ok(v as i32)
        },
    }
}

fn required(text: Option<String>, field: Field) -> (found: Result<String, ConfigError>)
    ensures
        match found {
            Ok(t) => text_view(text) == Some(t@),
            Err(e) => e == ConfigError::Missing(field) && text is None,
        },
{
    match text {
        Some(t) => Ok(t),
        None => Err(ConfigError::Missing(field)),
    }
}

/// Turns the fields of a job into a scenario, or names the first fault.
///
/// The fields are gone through in their order. The flop comes back in
/// ascending order, a missing turn or river as [`NOT_DEALT`], and the street
/// is the one that the board begins at.
pub fn normalize(raw: RawScenario) -> (outcome: Result<Scenario, ConfigError>)
    ensures
        match outcome {
            Ok(scenario) => fault_of(raw@) is None && is_scenario_of(scenario, raw@)
                && scenario.cards.river_follows_turn(),
            Err(fault) => fault_of(raw@) == Some(fault),
        },
{
    let RawScenario {
        oop_range,
        ip_range,
        flop,
        turn,
        river,
        starting_pot,
        effective_stack,
        bet_size,
        raise_size,
    } = raw;
    let oop_range = match required(oop_range, Field::OopRange) {
        Ok(text) => text,
        Err(fault) => {
            return Err(fault);
        },
    };
    let ip_range = match required(ip_range, Field::IpRange) {
        Ok(text) => text,
        Err(fault) => {
            return Err(fault);
        },
    };
    let flop_text = match required(flop, Field::Flop) {
        Ok(text) => text,
        Err(fault) => {
            return Err(fault);
        },
    };
    let flop = match flop_from_str(flop_text.as_str()) {
        Some(cards) => cards,
        None => {
            return Err(ConfigError::Malformed(Field::Flop));
        },
    };
    let turn = match board_card(&turn) {
        Some(card) => card,
        None => {
            return Err(ConfigError::Malformed(Field::Turn));
        },
    };
    let river = match board_card(&river) {
        Some(card) => card,
        None => {
            return Err(ConfigError::Malformed(Field::River));
        },
    };
    if river != NOT_DEALT && turn == NOT_DEALT {
        return Err(ConfigError::RiverWithoutTurn);
    }
    let starting_pot = match chips(starting_pot, Field::StartingPot) {
        Ok(amount) => amount,
        Err(fault) => {
            return Err(fault);
        },
    };
    let effective_stack = match chips(effective_stack, Field::EffectiveStack) {
        Ok(amount) => amount,
        Err(fault) => {
            return Err(fault);
        },
    };
    let bet_size = match required(bet_size, Field::BetSize) {
        Ok(text) => text,
        Err(fault) => {
            return Err(fault);
        },
    };
    let raise_size = match required(raise_size, Field::RaiseSize) {
        Ok(text) => text,
        Err(fault) => {
            return Err(fault);
        },
    };
    let street = starting_street(turn, river);
    Ok(
        Scenario {
            cards: CardSpec { oop_range, ip_range, flop, turn, river },
            street,
            starting_pot,
            effective_stack,
            bet_size,
            raise_size,
        },
    )
}

/// Every scenario begins at the street of its board: at the river where the
/// river is dealt, at the turn where only the turn is dealt, at the flop where
/// neither is.
pub proof fn lemma_street_of_scenario(scenario: Scenario, raw: RawView)
    requires
        fault_of(raw) is None,
        is_scenario_of(scenario, raw),
    ensures
        is_dealt(scenario.cards.river) ==> scenario.street == StartingStreet::River,
        is_dealt(scenario.cards.river) ==> is_dealt(scenario.cards.turn),
        !is_dealt(scenario.cards.river) && is_dealt(scenario.cards.turn) ==> scenario.street
            == StartingStreet::Turn,
        !is_dealt(scenario.cards.river) && !is_dealt(scenario.cards.turn) ==> scenario.street
            == StartingStreet::Flop,
{
}

/// A job that gives a river and no turn is not a scenario, whatever else it
/// holds; where nothing before the river is at fault, the fault named is the
/// river without a turn.
pub proof fn lemma_river_needs_turn(raw: RawView)
    requires
        raw.turn is None,
        raw.river is Some,
    ensures
        fault_of(raw) is Some,
        raw.oop_range is Some && raw.ip_range is Some && raw.flop is Some && is_flop_text(
            raw.flop->0,
        ) && card_of_text(raw.river->0) is Some ==> fault_of(raw) == Some(
            ConfigError::RiverWithoutTurn,
        ),
{
    if card_of_text(raw.river->0) is Some {
        assert(card_of_text(raw.river->0)->0 != NOT_DEALT);
    }
}

} // verus!
