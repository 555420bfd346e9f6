use std::collections::HashSet;

use bridge_engine::constants::{hcp_value, rank_index, seat_index, SUIT_ORDER};
use bridge_engine::{create_deck, create_hand, next_seat, partner_seat, EngineError, Rank, Seat, Suit};

#[test]
fn deck_has_52_unique_cards() {
    let deck = create_deck();
    assert_eq!(deck.len(), 52);
    let unique: HashSet<String> = deck.iter().map(|c| format!("{:?}{:?}", c.suit, c.rank)).collect();
    assert_eq!(unique.len(), 52);
}

#[test]
fn seat_rotation() {
    assert_eq!(next_seat(Seat::North), Seat::East);
    assert_eq!(next_seat(Seat::East), Seat::South);
    assert_eq!(next_seat(Seat::South), Seat::West);
    assert_eq!(next_seat(Seat::West), Seat::North);
}

#[test]
fn partner_mapping() {
    assert_eq!(partner_seat(Seat::North), Seat::South);
    assert_eq!(partner_seat(Seat::South), Seat::North);
    assert_eq!(partner_seat(Seat::East), Seat::West);
    assert_eq!(partner_seat(Seat::West), Seat::East);
}

#[test]
fn hcp_values_correct() {
    assert_eq!(hcp_value(Rank::Two), 0);
    assert_eq!(hcp_value(Rank::Nine), 0);
    assert_eq!(hcp_value(Rank::Ten), 0);
    assert_eq!(hcp_value(Rank::Jack), 1);
    assert_eq!(hcp_value(Rank::Queen), 2);
    assert_eq!(hcp_value(Rank::King), 3);
    assert_eq!(hcp_value(Rank::Ace), 4);
}

#[test]
fn create_hand_requires_13_cards() {
    let deck = create_deck();
    let result = create_hand(deck[0..12].to_vec());
    assert!(result.is_err());
    let result = create_hand(deck[0..13].to_vec());
    assert!(result.is_ok());
}

#[test]
fn suit_order_is_spades_hearts_diamonds_clubs() {
    assert_eq!(SUIT_ORDER, [Suit::Spades, Suit::Hearts, Suit::Diamonds, Suit::Clubs]);
}

// --- further cases ---

#[test]
fn deck_order_is_suits_then_ranks() {
    let deck = create_deck();
    assert_eq!(deck[0].suit, Suit::Clubs);
    assert_eq!(deck[0].rank, Rank::Two);
    assert_eq!(deck[12].rank, Rank::Ace);
    assert_eq!(deck[13].suit, Suit::Diamonds);
    assert_eq!(deck[51].suit, Suit::Spades);
    assert_eq!(deck[51].rank, Rank::Ace);
}

#[test]
fn wrong_hand_size_reports_the_count() {
    let deck = create_deck();
    let err = create_hand(deck[0..12].to_vec()).unwrap_err();
    assert_eq!(err, EngineError::InvalidHandSize(12));
    assert_eq!(err.message(), "Hand must have exactly 13 cards, got 12");
    let err = create_hand(deck.clone()).unwrap_err();
    assert_eq!(err.message(), "Hand must have exactly 13 cards, got 52");
}

#[test]
fn indices_follow_rotation_and_rank_order() {
    assert_eq!(seat_index(Seat::North), 0);
    assert_eq!(seat_index(Seat::West), 3);
    assert_eq!(rank_index(Rank::Two), 0);
    assert_eq!(rank_index(Rank::Ace), 12);
}
