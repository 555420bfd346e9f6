use vstd::prelude::*;

use crate::constants::{seat_index, seat_num};
use crate::error::EngineError;

verus! {

/// The four suits.
#[derive(Debug, Clone, Copy, PartialEq, Eq, Hash, Structural)]
pub enum Suit {
    Clubs,
    Diamonds,
    Hearts,
    Spades,
}

/// The thirteen ranks, from two up to ace.
#[derive(Debug, Clone, Copy, PartialEq, Eq, Hash, Structural)]
pub enum Rank {
    Two,
    Three,
    Four,
    Five,
    Six,
    Seven,
    Eight,
    Nine,
    Ten,
    Jack,
    Queen,
    King,
    Ace,
}

/// The four seats; play rotates North, East, South, West.
#[derive(Debug, Clone, Copy, PartialEq, Eq, Hash, PartialOrd, Ord, Structural)]
pub enum Seat {
    North,
    East,
    South,
    West,
}

#[derive(Debug, Clone, Copy, PartialEq, Eq, Structural)]
pub enum Vulnerability {
    Neither,
    NorthSouth,
    EastWest,
    Both,
}

/// A strain that a bid can name, ordered clubs, diamonds, hearts, spades, no-trump.
#[derive(Debug, Clone, Copy, PartialEq, Eq, Hash, Structural)]
pub enum BidSuit {
    Clubs,
    Diamonds,
    Hearts,
    Spades,
    NoTrump,
}

#[derive(Debug, Clone, Copy, PartialEq, Eq, Structural)]
pub struct Card {
    pub suit: Suit,
    pub rank: Rank,
}

/// A holding of cards; a dealt hand has thirteen.
#[derive(Debug, Clone)]
pub struct Hand {
    pub cards: Vec<Card>,
}

#[derive(Debug, Clone, Copy, PartialEq, Eq, Structural)]
pub enum Call {
    Bid { level: u8, strain: BidSuit },
    Pass,
    Double,
    Redouble,
}

#[derive(Debug, Clone, Copy, PartialEq, Eq, Structural)]
pub struct AuctionEntry {
    pub seat: Seat,
    pub call: Call,
}

/// The calls made so far, in order, and whether the auction has ended.
#[derive(Debug, Clone)]
pub struct Auction {
    pub entries: Vec<AuctionEntry>,
    pub is_complete: bool,
}

#[derive(Debug, Clone, Copy, PartialEq, Eq, Structural)]
pub struct Contract {
    pub level: u8,
    pub strain: BidSuit,
    pub doubled: bool,
    pub redoubled: bool,
    pub declarer: Seat,
}

/// The four hands, held in seat order North, East, South, West.
#[derive(Debug, Clone)]
pub struct Deal {
    pub hands: Vec<Hand>,
    pub dealer: Seat,
    pub vulnerability: Vulnerability,
}

impl Deal {
    /// The hand of `seat`.
    pub fn hand(&self, seat: Seat) -> (r: &Hand)
        requires
            self.hands@.len() == 4,
        ensures
            *r == self.hands@[seat_num(seat)],
    {
        &self.hands[seat_index(seat)]
    }
}

/// Suit lengths, ordered spades, hearts, diamonds, clubs.
pub type SuitLength = [u8; 4];

/// A bound per suit, ordered spades, hearts, diamonds, clubs; `None` leaves a suit free.
pub type SuitLimits = [Option<u8>; 4];

#[derive(Debug, Clone, Copy, PartialEq, Eq, Structural)]
pub struct DistributionPoints {
    pub shortness: u32,
    pub length: u32,
    pub total: u32,
}

#[derive(Debug, Clone)]
pub struct HandEvaluation {
    pub hcp: u32,
    pub distribution: DistributionPoints,
    pub shape: SuitLength,
    pub total_points: u32,
    pub strategy: String,
}

#[derive(Debug, Clone, Copy, PartialEq, Eq, Structural)]
pub struct PlayedCard {
    pub card: Card,
    pub seat: Seat,
}

/// The plays of one trick in the order made, and the trump suit if any.
#[derive(Debug, Clone)]
pub struct Trick {
    pub plays: Vec<PlayedCard>,
    pub trump_suit: Option<Suit>,
    pub winner: Option<Seat>,
}

/// What one seat's hand must satisfy in a generated deal.
#[derive(Debug, Clone, Copy)]
pub struct SeatConstraint {
    pub seat: Seat,
    pub min_hcp: Option<u32>,
    pub max_hcp: Option<u32>,
    pub balanced: Option<bool>,
    pub min_length: Option<SuitLimits>,
    pub max_length: Option<SuitLimits>,
    /// At least one of the listed suits must reach its length.
    pub min_length_any: Option<SuitLimits>,
}

#[derive(Debug, Clone)]
pub struct DealConstraints {
    pub seats: Vec<SeatConstraint>,
    pub vulnerability: Option<Vulnerability>,
    pub dealer: Option<Seat>,
    pub max_attempts: Option<u32>,
    pub seed: Option<u64>,
}

#[derive(Debug, Clone)]
pub struct DealGeneratorResult {
    pub deal: Deal,
    pub iterations: u32,
    pub relaxation_steps: u32,
}

/// Double-dummy trick counts: for each seat in the order North, East, South,
/// West, the tricks it takes as declarer in each strain, clubs to no-trump.
#[derive(Debug, Clone, PartialEq, Eq)]
pub struct DDSolution {
    pub tricks: Vec<Vec<u32>>,
}

/// A way of choosing the card to play.
pub trait PlayStrategy {
    fn suggest_play(
        &self,
        hand: &Hand,
        current_trick: &Trick,
        trump_suit: Option<Suit>,
        previous_tricks: &[Trick],
    ) -> Card;
}

/// A double-dummy solver: the tricks each seat takes as declarer in each strain.
pub trait DoubleDummySolver {
    fn solve(&self, deal: &Deal) -> Result<DDSolution, EngineError>;
}

} // verus!
