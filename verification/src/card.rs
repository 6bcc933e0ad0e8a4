//! Playing cards as numbers, and how they are written.
//!
//! A card is written as a rank character followed by a suit character, as in
//! `Td` or `6h`. Its number is four times its rank plus its suit, so `2c` is 0
//! and `As` is 51.

use vstd::prelude::*;
use vstd::string::{StrSliceExecFns, StringExecFns};

verus! {

/// A card by its number, below [`NUM_CARDS`], or [`NOT_DEALT`].
pub type Card = u8;

/// The number of cards in the deck.
pub const NUM_CARDS: u8 = 52;

/// Stands in the place of a board card that has not been dealt.
pub const NOT_DEALT: Card = 255;

/// Whether `card` stands for a card that has been dealt.
pub open spec fn is_dealt(card: Card) -> bool {
    card != NOT_DEALT
}

/// The rank that `c` names: `2` to `9` are 0 to 7, then `T`, `J`, `Q`, `K`,
/// `A`, in upper or lower case, are 8 to 12.
pub open spec fn rank_of(c: char) -> Option<u8> {
    if c == '2' {
        Some(0u8)
    } else if c == '3' {
        Some(1u8)
    } else if c == '4' {
        Some(2u8)
    } else if c == '5' {
        Some(3u8)
    } else if c == '6' {
        Some(4u8)
    } else if c == '7' {
        Some(5u8)
    } else if c == '8' {
        Some(6u8)
    } else if c == '9' {
        Some(7u8)
    } else if c == 'T' || c == 't' {
        Some(8u8)
    } else if c == 'J' || c == 'j' {
        Some(9u8)
    } else if c == 'Q' || c == 'q' {
        Some(10u8)
    } else if c == 'K' || c == 'k' {
        Some(11u8)
    } else if c == 'A' || c == 'a' {
        Some(12u8)
    } else {
        None
    }
}

/// The suit that `c` names: `c`, `d`, `h`, `s` are 0 to 3.
pub open spec fn suit_of(c: char) -> Option<u8> {
    if c == 'c' {
        Some(0u8)
    } else if c == 'd' {
        Some(1u8)
    } else if c == 'h' {
        Some(2u8)
    } else if c == 's' {
        Some(3u8)
    } else {
        None
    }
}

/// The card that a rank character and a suit character name together.
pub open spec fn card_of(rank: char, suit: char) -> Option<Card> {
    match (rank_of(rank), suit_of(suit)) {
        (Some(r), Some(s)) => Some((4 * r + s) as u8),
        _ => None,
    }
}

/// The card that `text` names: `text` is exactly a rank character and a suit
/// character.
pub open spec fn card_of_text(text: Seq<char>) -> Option<Card> {
    if text.len() == 2 {
        card_of(text[0], text[1])
    } else {
        None
    }
}

/// The three cards that `text` names, as written: `text` is exactly three
/// cards one after another.
pub open spec fn cards_of_flop_text(text: Seq<char>) -> Option<(Card, Card, Card)> {
    if text.len() == 6 {
        match (card_of(text[0], text[1]), card_of(text[2], text[3]), card_of(text[4], text[5])) {
            (Some(a), Some(b), Some(c)) => Some((a, b, c)),
            _ => None,
        }
    } else {
        None
    }
}

/// Whether `flop` holds exactly the cards `a`, `b` and `c`.
pub open spec fn holds_cards(flop: [Card; 3], a: Card, b: Card, c: Card) -> bool {
    ||| (flop[0] == a && flop[1] == b && flop[2] == c)
    ||| (flop[0] == a && flop[1] == c && flop[2] == b)
    ||| (flop[0] == b && flop[1] == a && flop[2] == c)
    ||| (flop[0] == b && flop[1] == c && flop[2] == a)
    ||| (flop[0] == c && flop[1] == a && flop[2] == b)
    ||| (flop[0] == c && flop[1] == b && flop[2] == a)
}

/// Whether `flop` is what `text` is read as: the three cards that `text`
/// names, no two alike, in ascending order.
pub open spec fn is_flop_of_text(flop: [Card; 3], text: Seq<char>) -> bool {
    &&& cards_of_flop_text(text) matches Some((a, b, c))
    &&& a != b && a != c && b != c
    &&& holds_cards(flop, a, b, c)
    &&& flop[0] < flop[1] < flop[2]
}

/// Whether `text` can be read as a flop at all.
pub open spec fn is_flop_text(text: Seq<char>) -> bool {
    &&& cards_of_flop_text(text) matches Some((a, b, c))
    &&& a != b && a != c && b != c
}

/// The rank that the character names, if it names one.
pub fn rank_from_char(c: char) -> (rank: Option<u8>)
    ensures
        rank == rank_of(c),
{
    if c == '2' {
        Some(0)
    } else if c == '3' {
        Some(1)
    } else if c == '4' {
        Some(2)
    } else if c == '5' {
        Some(3)
    } else if c == '6' {
        Some(4)
    } else if c == '7' {
        Some(5)
    } else if c == '8' {
        Some(6)
    } else if c == '9' {
        Some(7)
    } else if c == 'T' || c == 't' {
        Some(8)
    } else if c == 'J' || c == 'j' {
        Some(9)
    } else if c == 'Q' || c == 'q' {
        Some(10)
    } else if c == 'K' || c == 'k' {
        Some(11)
    } else if c == 'A' || c == 'a' {
        Some(12)
    } else {
        None
    }
}

/// The suit that the character names, if it names one.
pub fn suit_from_char(c: char) -> (suit: Option<u8>)
    ensures
        suit == suit_of(c),
{
    if c == 'c' {
        Some(0)
    } else if c == 'd' {
        Some(1)
    } else if c == 'h' {
        Some(2)
    } else if c == 's' {
        Some(3)
    } else {
        None
    }
}

/// The card that the two characters name, if they name one.
pub fn card_from_chars(rank: char, suit: char) -> (card: Option<Card>)
    ensures
        card == card_of(rank, suit),
        card matches Some(id) ==> id < NUM_CARDS,
{
    match rank_from_char(rank) {
        Some(r) => match suit_from_char(suit) {
            Some(s) => Some(4 * r + s),
            None => None,
        },
        None => None,
    }
}

/// Reads a card. `None` if `text` is not exactly a rank character and a suit
/// character.
pub fn card_from_str(text: &str) -> (card: Option<Card>)
    ensures
        card == card_of_text(text@),
        card matches Some(id) ==> id < NUM_CARDS,
{
    if text.unicode_len() != 2 {
        return None;
    }
    card_from_chars(text.get_char(0), text.get_char(1))
}

/// Reads a flop: three cards written one after another, no two alike. The
/// cards come back in ascending order. `None` if `text` is anything else.
pub fn flop_from_str(text: &str) -> (flop: Option<[Card; 3]>)
    ensures
        flop is Some <==> is_flop_text(text@),
        flop matches Some(cards) ==> is_flop_of_text(cards, text@) && cards[2] < NUM_CARDS,
{
    if text.unicode_len() != 6 {
        return None;
    }
    let a = match card_from_chars(text.get_char(0), text.get_char(1)) {
        Some(card) => card,
        None => {
            return None;
        },
    };
    let b = match card_from_chars(text.get_char(2), text.get_char(3)) {
        Some(card) => card,
        None => {
            return None;
        },
    };
    let c = match card_from_chars(text.get_char(4), text.get_char(5)) {
        Some(card) => card,
        None => {
            return None;
        },
    };
    if a == b || a == c || b == c {
        return None;
    }
    let (low, mid, high) = if a < b {
        if b < c {
            (a, b, c)
        } else if a < c {
            (a, c, b)
        } else {
            (c, a, b)
        }
    } else {
        if a < c {
            (b, a, c)
        } else if b < c {
            (b, c, a)
        } else {
            (c, b, a)
        }
    };
    Some([low, mid, high])
}

/// The character that a rank is written with: the upper-case one.
pub open spec fn char_of_rank(rank: u8) -> char {
    if rank == 0 {
        '2'
    } else if rank == 1 {
        '3'
    } else if rank == 2 {
        '4'
    } else if rank == 3 {
        '5'
    } else if rank == 4 {
        '6'
    } else if rank == 5 {
        '7'
    } else if rank == 6 {
        '8'
    } else if rank == 7 {
        '9'
    } else if rank == 8 {
        'T'
    } else if rank == 9 {
        'J'
    } else if rank == 10 {
        'Q'
    } else if rank == 11 {
        'K'
    } else {
        'A'
    }
}

/// The character that a suit is written with.
pub open spec fn char_of_suit(suit: u8) -> char {
    if suit == 0 {
        'c'
    } else if suit == 1 {
        'd'
    } else if suit == 2 {
        'h'
    } else {
        's'
    }
}

/// How a card is written: its rank character, then its suit character.
pub open spec fn text_of_card(card: Card) -> Seq<char> {
    seq![char_of_rank(card / 4), char_of_suit(card % 4)]
}

fn rank_text(rank: u8) -> (text: &'static str)
    requires
        rank < 13,
    ensures
        text@ == seq![char_of_rank(rank)],
{
    proof {
        reveal_strlit("2");
        reveal_strlit("3");
        reveal_strlit("4");
        reveal_strlit("5");
        reveal_strlit("6");
        reveal_strlit("7");
        reveal_strlit("8");
        reveal_strlit("9");
        reveal_strlit("T");
        reveal_strlit("J");
        reveal_strlit("Q");
        reveal_strlit("K");
        reveal_strlit("A");
    }
    let text = if rank == 0 {
        "2"
    } else if rank == 1 {
        "3"
    } else if rank == 2 {
        "4"
    } else if rank == 3 {
        "5"
    } else if rank == 4 {
        "6"
    } else if rank == 5 {
        "7"
    } else if rank == 6 {
        "8"
    } else if rank == 7 {
        "9"
    } else if rank == 8 {
        "T"
    } else if rank == 9 {
        "J"
    } else if rank == 10 {
        "Q"
    } else if rank == 11 {
        "K"
    } else {
        "A"
    };
    assert(text@ =~= seq![char_of_rank(rank)]);
    text
}

fn suit_text(suit: u8) -> (text: &'static str)
    requires
        suit < 4,
    ensures
        text@ == seq![char_of_suit(suit)],
{
    proof {
        reveal_strlit("c");
        reveal_strlit("d");
        reveal_strlit("h");
        reveal_strlit("s");
    }
    let text = if suit == 0 {
        "c"
    } else if suit == 1 {
        "d"
    } else if suit == 2 {
        "h"
    } else {
        "s"
    };
    assert(text@ =~= seq![char_of_suit(suit)]);
    text
}

/// Writes a card. `None` for a number that is no card.
pub fn card_to_string(card: Card) -> (text: Option<String>)
    ensures
        text is Some <==> card < NUM_CARDS,
        text matches Some(t) ==> t@ == text_of_card(card),
{
    if card >= NUM_CARDS {
        return None;
    }
    let text = String::from_str(rank_text(card / 4)).concat(suit_text(card % 4));
    assert(text@ =~= text_of_card(card));
    Some(text)
}

/// A card that is written and read again is the same card.
pub proof fn lemma_card_text_round_trip(card: Card)
    requires
        card < NUM_CARDS,
    ensures
        card_of_text(text_of_card(card)) == Some(card),
{
    let rank = card / 4;
    let suit = card % 4;
    assert(rank < 13 && suit < 4);
    assert(rank_of(char_of_rank(rank)) == Some(rank));
    assert(suit_of(char_of_suit(suit)) == Some(suit));
    assert(4 * rank + suit == card);
}

} // verus!
