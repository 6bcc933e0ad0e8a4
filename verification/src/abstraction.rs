//! The betting abstraction: which sizings each player has on each street, and
//! the thresholds that shape the set of actions at a decision.
//!
//! Sizings are kept as they are written; whoever builds the game tree reads
//! them. Thresholds are whole thousandths, so 1500 stands for one and a half.

use vstd::prelude::*;
use crate::scenario::StartingStreet;

verus! {

/// One of the two players.
#[derive(Clone, Copy, Debug, PartialEq, Eq, Structural)]
pub enum Player {
    /// The player who acts first on every street.
    OutOfPosition,
    /// The player who acts last on every street.
    InPosition,
}

impl Player {
    /// The place of the player in a pair: 0 out of position, 1 in position.
    pub open spec fn place(self) -> int {
        match self {
            Player::OutOfPosition => 0,
            Player::InPosition => 1,
        }
    }

    /// The place of the player in a pair.
    pub fn index(self) -> (i: usize)
        ensures
            i == self.place(),
            i < 2,
    {
        match self {
            Player::OutOfPosition => 0,
            Player::InPosition => 1,
        }
    }
}

/// The sizings of one player on one street: for a bet and for a raise.
#[derive(Clone, Debug, PartialEq, Eq)]
pub struct BetSizing {
    pub bet: String,
    pub raise: String,
}

/// The three thresholds, in thousandths.
#[derive(Clone, Copy, Debug, PartialEq, Eq, Structural)]
pub struct Thresholds {
    /// An all-in is added where no sized bet is above this multiple of the pot.
    pub add_all_in: u32,
    /// A bet becomes an all-in where a call of it would leave a stack of at
    /// most this multiple of the pot.
    pub force_all_in: u32,
    /// A bet size is dropped where it is closer than this share to the next
    /// size kept above it.
    pub merging: u32,
}

impl Thresholds {
    /// One and a half pots for adding an all-in, 0.15 for forcing one, 0.1
    /// for merging.
    pub fn standard() -> (thresholds: Self)
        ensures
            thresholds == (Thresholds { add_all_in: 1500, force_all_in: 150, merging: 100 }),
    {
        Thresholds { add_all_in: 1500, force_all_in: 150, merging: 100 }
    }
}

/// Why a betting abstraction cannot be built.
#[derive(Clone, Copy, Debug, PartialEq, Eq, Structural)]
pub enum AbstractionError {
    /// The starting pot is zero or negative.
    NonPositivePot,
    /// The effective stack is zero or negative.
    NonPositiveStack,
}

/// The specification of the tree of actions. Each pair of sizings is ordered
/// out of position first.
#[derive(Clone, Debug, PartialEq, Eq)]
pub struct ActionTreeSpec {
    pub initial_state: StartingStreet,
    pub starting_pot: i32,
    pub effective_stack: i32,
    pub flop_bet_sizes: [BetSizing; 2],
    pub turn_bet_sizes: [BetSizing; 2],
    pub river_bet_sizes: [BetSizing; 2],
    /// The sizing of a donk bet on the turn; without one, the turn's bet sizing.
    pub turn_donk_sizes: Option<String>,
    /// The sizing of a donk bet on the river; without one, the river's bet sizing.
    pub river_donk_sizes: Option<String>,
    pub thresholds: Thresholds,
}

impl ActionTreeSpec {
    /// The pair of sizings of a street.
    pub open spec fn sizes_on(self, street: StartingStreet) -> [BetSizing; 2] {
        match street {
            StartingStreet::Flop => self.flop_bet_sizes,
            StartingStreet::Turn => self.turn_bet_sizes,
            StartingStreet::River => self.river_bet_sizes,
        }
    }

    /// The donk sizing of a street, if it has one. The flop has none.
    pub open spec fn donk_on(self, street: StartingStreet) -> Option<String> {
        match street {
            StartingStreet::Flop => None,
            StartingStreet::Turn => self.turn_donk_sizes,
            StartingStreet::River => self.river_donk_sizes,
        }
    }

    /// Every player has the bet sizing `bet` and the raise sizing `raise` on
    /// every street.
    pub open spec fn is_uniform(self, bet: Seq<char>, raise: Seq<char>) -> bool {
        forall|street: StartingStreet, player: int|
            0 <= player < 2 ==> {
                &&& (#[trigger] self.sizes_on(street)[player]).bet@ == bet
                &&& self.sizes_on(street)[player].raise@ == raise
            }
    }

    /// Pot and stack are positive.
    pub open spec fn well_formed(self) -> bool {
        self.starting_pot > 0 && self.effective_stack > 0
    }

    /// Checks the pot and the stack of a specification that was put together
    /// by hand: the pot first.
    pub fn validate(&self) -> (outcome: Result<(), AbstractionError>)
        ensures
            outcome is Ok <==> self.well_formed(),
            outcome == Err::<(), AbstractionError>(AbstractionError::NonPositivePot)
                <==> self.starting_pot <= 0,
            outcome == Err::<(), AbstractionError>(AbstractionError::NonPositiveStack)
                <==> self.starting_pot > 0 && self.effective_stack <= 0,
    {
        if self.starting_pot <= 0 {
            Err(AbstractionError::NonPositivePot)
        } else if self.effective_stack <= 0 {
            Err(AbstractionError::NonPositiveStack)
        } else {
            Ok(())
        }
    }

    /// The sizing that governs the first bet of `actor` on `street`, where
    /// `aggressor` made the last bet or raise of the street before, if anyone
    /// did: the donk sizing of the street where there is one and the actor
    /// bets into the aggressor, and the actor's bet sizing otherwise.
    pub open spec fn opening_sizing_of(
        self,
        street: StartingStreet,
        actor: Player,
        aggressor: Option<Player>,
    ) -> Seq<char> {
        if is_donk(actor, aggressor) && self.donk_on(street) is Some {
            self.donk_on(street)->0@
        } else {
            self.sizes_on(street)[actor.place()].bet@
        }
    }

    /// The sizing that governs the first bet of `actor` on `street`.
    pub fn opening_sizing(
        &self,
        street: StartingStreet,
        actor: Player,
        aggressor: Option<Player>,
    ) -> (sizing: &str)
        ensures
            sizing@ == self.opening_sizing_of(street, actor, aggressor),
    {
        let donk = match street {
            StartingStreet::Flop => &None,
            StartingStreet::Turn => &self.turn_donk_sizes,
            StartingStreet::River => &self.river_donk_sizes,
        };
        let bets = match street {
            StartingStreet::Flop => &self.flop_bet_sizes,
            StartingStreet::Turn => &self.turn_bet_sizes,
            StartingStreet::River => &self.river_bet_sizes,
        };
        let bets_into = match aggressor {
            Some(other) => other != actor,
            None => false,
        };
        match donk {
            Some(sizing) => if bets_into {
                sizing.as_str()
            } else {
                bets[actor.index()].bet.as_str()
            },
            None => bets[actor.index()].bet.as_str(),
        }
    }
}

/// A bet is a donk bet where the one who bets is not the one who made the
/// last bet or raise of the street before.
pub open spec fn is_donk(actor: Player, aggressor: Option<Player>) -> bool {
    aggressor matches Some(other) && other != actor
}

fn sizing_pair(bet_size: &str, raise_size: &str) -> (pair: [BetSizing; 2])
    ensures
        forall|player: int|
            0 <= player < 2 ==> (#[trigger] pair[player]).bet@ == bet_size@ && pair[player].raise@
                == raise_size@,
{
    [
        BetSizing { bet: bet_size.to_owned(), raise: raise_size.to_owned() },
        BetSizing { bet: bet_size.to_owned(), raise: raise_size.to_owned() },
    ]
}

/// Builds the specification in which both players have the same two sizings
/// on all three streets.
///
/// Fails where the pot is not positive, and else where the stack is not.
pub fn build_action_tree(
    initial_state: StartingStreet,
    starting_pot: i32,
    effective_stack: i32,
    bet_size: &str,
    raise_size: &str,
    turn_donk_sizes: Option<String>,
    river_donk_sizes: Option<String>,
    thresholds: Thresholds,
) -> (outcome: Result<ActionTreeSpec, AbstractionError>)
    ensures
        match outcome {
            Ok(spec) => {
                &&& starting_pot > 0 && effective_stack > 0
                &&& spec.initial_state == initial_state
                &&& spec.starting_pot == starting_pot
                &&& spec.effective_stack == effective_stack
                &&& spec.is_uniform(bet_size@, raise_size@)
                &&& spec.turn_donk_sizes == turn_donk_sizes
                &&& spec.river_donk_sizes == river_donk_sizes
                &&& spec.thresholds == thresholds
                &&& spec.well_formed()
            },
            Err(AbstractionError::NonPositivePot) => starting_pot <= 0,
            Err(AbstractionError::NonPositiveStack) => starting_pot > 0 && effective_stack <= 0,
        },
{
    if starting_pot <= 0 {
        return Err(AbstractionError::NonPositivePot);
    }
    if effective_stack <= 0 {
        return Err(AbstractionError::NonPositiveStack);
    }
    let spec = ActionTreeSpec {
        initial_state,
        starting_pot,
        effective_stack,
        flop_bet_sizes: sizing_pair(bet_size, raise_size),
        turn_bet_sizes: sizing_pair(bet_size, raise_size),
        river_bet_sizes: sizing_pair(bet_size, raise_size),
        turn_donk_sizes,
        river_donk_sizes,
        thresholds,
    };
    assert forall|street: StartingStreet, player: int| 0 <= player < 2 implies {
        &&& (#[trigger] spec.sizes_on(street)[player]).bet@ == bet_size@
        &&& spec.sizes_on(street)[player].raise@ == raise_size@
    } by {
        match street {
            StartingStreet::Flop => {
                assert(spec.flop_bet_sizes[player].bet@ == bet_size@);
            },
            StartingStreet::Turn => {
                assert(spec.turn_bet_sizes[player].bet@ == bet_size@);
            },
            StartingStreet::River => {
                assert(spec.river_bet_sizes[player].bet@ == bet_size@);
            },
        }
    }
    Ok(spec)
}

} // verus!
