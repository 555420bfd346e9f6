use vstd::prelude::*;

use crate::error::EngineError;
use crate::types::{Card, Hand, Rank, Seat, Suit};

verus! {

pub const SUITS: [Suit; 4] = [Suit::Clubs, Suit::Diamonds, Suit::Hearts, Suit::Spades];

/// The suit order of a `SuitLength`: spades, hearts, diamonds, clubs.
pub const SUIT_ORDER: [Suit; 4] = [Suit::Spades, Suit::Hearts, Suit::Diamonds, Suit::Clubs];

pub const SEATS: [Seat; 4] = [Seat::North, Seat::East, Seat::South, Seat::West];

/// Number of cards in a full hand.
pub const HAND_SIZE: usize = 13;

/// Number of cards in the deck.
pub const DECK_SIZE: usize = 52;

/// Position of a seat in the rotation, North first.
pub open spec fn seat_num(seat: Seat) -> int {
    match seat {
        Seat::North => 0,
        Seat::East => 1,
        Seat::South => 2,
        Seat::West => 3,
    }
}

pub open spec fn seat_at(i: int) -> Seat {
    if i == 0 {
        Seat::North
    } else if i == 1 {
        Seat::East
    } else if i == 2 {
        Seat::South
    } else {
        Seat::West
    }
}

/// Position of a rank, two lowest (0) and ace highest (12).
pub open spec fn rank_num(rank: Rank) -> int {
    match rank {
        Rank::Two => 0,
        Rank::Three => 1,
        Rank::Four => 2,
        Rank::Five => 3,
        Rank::Six => 4,
        Rank::Seven => 5,
        Rank::Eight => 6,
        Rank::Nine => 7,
        Rank::Ten => 8,
        Rank::Jack => 9,
        Rank::Queen => 10,
        Rank::King => 11,
        Rank::Ace => 12,
    }
}

pub open spec fn rank_at(i: int) -> Rank {
    if i == 0 {
        Rank::Two
    } else if i == 1 {
        Rank::Three
    } else if i == 2 {
        Rank::Four
    } else if i == 3 {
        Rank::Five
    } else if i == 4 {
        Rank::Six
    } else if i == 5 {
        Rank::Seven
    } else if i == 6 {
        Rank::Eight
    } else if i == 7 {
        Rank::Nine
    } else if i == 8 {
        Rank::Ten
    } else if i == 9 {
        Rank::Jack
    } else if i == 10 {
        Rank::Queen
    } else if i == 11 {
        Rank::King
    } else {
        Rank::Ace
    }
}

/// Position of a suit in deck order: clubs, diamonds, hearts, spades.
pub open spec fn suit_num(suit: Suit) -> int {
    match suit {
        Suit::Clubs => 0,
        Suit::Diamonds => 1,
        Suit::Hearts => 2,
        Suit::Spades => 3,
    }
}

pub open spec fn suit_at(i: int) -> Suit {
    if i == 0 {
        Suit::Clubs
    } else if i == 1 {
        Suit::Diamonds
    } else if i == 2 {
        Suit::Hearts
    } else {
        Suit::Spades
    }
}

/// High card points of a rank: ace 4, king 3, queen 2, jack 1, others 0.
pub open spec fn rank_hcp(rank: Rank) -> nat {
    match rank {
        Rank::Jack => 1,
        Rank::Queen => 2,
        Rank::King => 3,
        Rank::Ace => 4,
        _ => 0,
    }
}

/// The deck in its fixed order: suits clubs to spades, ranks two to ace in each.
pub open spec fn full_deck() -> Seq<Card> {
    Seq::new(52, |i: int| Card { suit: suit_at(i / 13), rank: rank_at(i % 13) })
}

pub open spec fn next_seat_spec(seat: Seat) -> Seat {
    seat_at((seat_num(seat) + 1) % 4)
}

pub open spec fn partner_spec(seat: Seat) -> Seat {
    seat_at((seat_num(seat) + 2) % 4)
}

pub fn seat_index(seat: Seat) -> (r: usize)
    ensures
        r == seat_num(seat),
{
    match seat {
        Seat::North => 0,
        Seat::East => 1,
        Seat::South => 2,
        Seat::West => 3,
    }
}

pub fn rank_index(rank: Rank) -> (r: usize)
    ensures
        r == rank_num(rank),
{
    match rank {
        Rank::Two => 0,
        Rank::Three => 1,
        Rank::Four => 2,
        Rank::Five => 3,
        Rank::Six => 4,
        Rank::Seven => 5,
        Rank::Eight => 6,
        Rank::Nine => 7,
        Rank::Ten => 8,
        Rank::Jack => 9,
        Rank::Queen => 10,
        Rank::King => 11,
        Rank::Ace => 12,
    }
}

pub fn hcp_value(rank: Rank) -> (r: u32)
    ensures
        r == rank_hcp(rank),
{
    match rank {
        Rank::Jack => 1,
        Rank::Queen => 2,
        Rank::King => 3,
        Rank::Ace => 4,
        _ => 0,
    }
}

fn suit_from_index(i: usize) -> (s: Suit)
    requires
        i < 4,
    ensures
        s == suit_at(i as int),
{
    if i == 0 {
        Suit::Clubs
    } else if i == 1 {
        Suit::Diamonds
    } else if i == 2 {
        Suit::Hearts
    } else {
        Suit::Spades
    }
}

fn rank_from_index(i: usize) -> (r: Rank)
    requires
        i < 13,
    ensures
        r == rank_at(i as int),
{
    if i == 0 {
        Rank::Two
    } else if i == 1 {
        Rank::Three
    } else if i == 2 {
        Rank::Four
    } else if i == 3 {
        Rank::Five
    } else if i == 4 {
        Rank::Six
    } else if i == 5 {
        Rank::Seven
    } else if i == 6 {
        Rank::Eight
    } else if i == 7 {
        Rank::Nine
    } else if i == 8 {
        Rank::Ten
    } else if i == 9 {
        Rank::Jack
    } else if i == 10 {
        Rank::Queen
    } else if i == 11 {
        Rank::King
    } else {
        Rank::Ace
    }
}

fn seat_from_index(i: usize) -> (s: Seat)
    requires
        i < 4,
    ensures
        s == seat_at(i as int),
{
    if i == 0 {
        Seat::North
    } else if i == 1 {
        Seat::East
    } else if i == 2 {
        Seat::South
    } else {
        Seat::West
    }
}

/// The 52 cards in deck order.
pub fn create_deck() -> (r: Vec<Card>)
    ensures
        r@ == full_deck(),
{
    let mut cards: Vec<Card> = Vec::with_capacity(DECK_SIZE);
    let mut i: usize = 0;
    while i < DECK_SIZE
        invariant
            i <= DECK_SIZE,
            cards@ == full_deck().take(i as int),
        decreases DECK_SIZE - i,
    {
        cards.push(Card { suit: suit_from_index(i / 13), rank: rank_from_index(i % 13) });
        i = i + 1;
        assert(cards@ =~= full_deck().take(i as int));
    }
    assert(cards@ =~= full_deck());
    cards
}

/// A hand from exactly thirteen cards.
pub fn create_hand(cards: Vec<Card>) -> (r: Result<Hand, EngineError>)
    ensures
        cards@.len() == 13 ==> (r matches Ok(h) && h.cards@ == cards@),
        cards@.len() != 13 ==> r == Err::<Hand, EngineError>(
            EngineError::InvalidHandSize(cards@.len() as usize),
        ),
{
    if cards.len() != HAND_SIZE {
        return Err(EngineError::InvalidHandSize(cards.len()));
    }
    Ok(Hand { cards })
}

pub fn next_seat(seat: Seat) -> (r: Seat)
    ensures
        r == next_seat_spec(seat),
{
    seat_from_index((seat_index(seat) + 1) % 4)
}

pub fn partner_seat(seat: Seat) -> (r: Seat)
    ensures
        r == partner_spec(seat),
{
    seat_from_index((seat_index(seat) + 2) % 4)
}

/// Every card appears in the deck, and no card twice.
pub proof fn lemma_full_deck_complete()
    ensures
        full_deck().len() == 52,
        full_deck().no_duplicates(),
        forall|c: Card| #[trigger] full_deck().contains(c),
{
    assert forall|i: int, j: int| 0 <= i < 52 && 0 <= j < 52 && i != j implies #[trigger] full_deck()[i]
        != #[trigger] full_deck()[j] by {
        assert(suit_num(suit_at(i / 13)) == i / 13);
        assert(suit_num(suit_at(j / 13)) == j / 13);
        assert(rank_num(rank_at(i % 13)) == i % 13);
        assert(rank_num(rank_at(j % 13)) == j % 13);
    }
    assert forall|c: Card| #[trigger] full_deck().contains(c) by {
        let k = suit_num(c.suit) * 13 + rank_num(c.rank);
        assert(full_deck()[k] == c);
    }
}

} // verus!
