use bridge_engine::constants::SEATS;
use bridge_engine::{shuffle_with_draws, Card, Rank, Suit};
use bridge_engine::{
    calculate_hcp, check_constraints, create_deck, generate_deal, get_suit_length, is_balanced,
    DealConstraints, EngineError, Seat, SeatConstraint, Vulnerability,
};

fn free(seed: u64) -> DealConstraints {
    DealConstraints { seats: vec![], vulnerability: None, dealer: None, max_attempts: None, seed: Some(seed) }
}

fn south(min_hcp: Option<u32>, max_hcp: Option<u32>, balanced: Option<bool>) -> SeatConstraint {
    SeatConstraint {
        seat: Seat::South,
        min_hcp,
        max_hcp,
        balanced,
        min_length: None,
        max_length: None,
        min_length_any: None,
    }
}

#[test]
fn unconstrained_deal_always_succeeds() {
    let result = generate_deal(&free(42)).unwrap();
    assert_eq!(result.iterations, 1);
    assert_eq!(result.relaxation_steps, 0);
    for seat in &[Seat::North, Seat::East, Seat::South, Seat::West] {
        assert_eq!(result.deal.hand(*seat).cards.len(), 13);
    }
}

#[test]
fn seed_determinism() {
    let constraints = free(42);
    let r1 = generate_deal(&constraints).unwrap();
    let r2 = generate_deal(&constraints).unwrap();
    assert_eq!(r1.deal.hand(Seat::North).cards, r2.deal.hand(Seat::North).cards);
    assert_eq!(r1.deal.hand(Seat::South).cards, r2.deal.hand(Seat::South).cards);
}

#[test]
fn different_seeds_produce_different_deals() {
    let r1 = generate_deal(&free(1)).unwrap();
    let r2 = generate_deal(&free(2)).unwrap();
    assert_ne!(r1.deal.hand(Seat::North).cards, r2.deal.hand(Seat::North).cards);
}

#[test]
fn hcp_constraint_respected() {
    let constraints = DealConstraints {
        seats: vec![south(Some(15), Some(17), None)],
        vulnerability: None,
        dealer: None,
        max_attempts: Some(50_000),
        seed: Some(100),
    };
    let result = generate_deal(&constraints).unwrap();
    let hcp = calculate_hcp(result.deal.hand(Seat::South));
    assert!(hcp >= 15 && hcp <= 17, "HCP was {}", hcp);
}

#[test]
fn balanced_constraint_respected() {
    let constraints = DealConstraints {
        seats: vec![south(None, None, Some(true))],
        vulnerability: None,
        dealer: None,
        max_attempts: Some(50_000),
        seed: Some(200),
    };
    let result = generate_deal(&constraints).unwrap();
    let shape = get_suit_length(result.deal.hand(Seat::South));
    assert!(is_balanced(&shape), "Shape was {:?}", shape);
}

#[test]
fn max_attempts_error() {
    let constraints = DealConstraints {
        seats: vec![south(Some(40), None, None)],
        vulnerability: None,
        dealer: None,
        max_attempts: Some(10),
        seed: Some(1),
    };
    let result = generate_deal(&constraints);
    assert!(result.is_err());
    let err = result.unwrap_err();
    assert!(err.message().contains("10 attempts"));
}

#[test]
fn dealer_and_vulnerability_passed_through() {
    let constraints = DealConstraints {
        seats: vec![],
        vulnerability: Some(Vulnerability::Both),
        dealer: Some(Seat::East),
        max_attempts: None,
        seed: Some(42),
    };
    let result = generate_deal(&constraints).unwrap();
    assert_eq!(result.deal.dealer, Seat::East);
    assert_eq!(result.deal.vulnerability, Vulnerability::Both);
}

#[test]
fn min_length_any_or_constraint() {
    let mut sc = south(None, None, None);
    // spades or hearts of five or more
    sc.min_length_any = Some([Some(5), Some(5), None, None]);
    let constraints = DealConstraints {
        seats: vec![sc],
        vulnerability: None,
        dealer: None,
        max_attempts: Some(50_000),
        seed: Some(300),
    };
    let result = generate_deal(&constraints).unwrap();
    let shape = get_suit_length(result.deal.hand(Seat::South));
    assert!(shape[0] >= 5 || shape[1] >= 5, "Shape was {:?}", shape);
}

#[test]
fn total_hcp_invariant() {
    let result = generate_deal(&free(42)).unwrap();
    let total: u32 = [Seat::North, Seat::East, Seat::South, Seat::West]
        .iter()
        .map(|s| calculate_hcp(result.deal.hand(*s)))
        .sum();
    assert_eq!(total, 40);
}

#[test]
fn all_52_cards_present() {
    let result = generate_deal(&free(42)).unwrap();
    let mut all_cards: Vec<_> = result
        .deal
        .hands
        .iter()
        .flat_map(|h| h.cards.iter())
        .map(|c| format!("{:?}{:?}", c.suit, c.rank))
        .collect();
    all_cards.sort();
    all_cards.dedup();
    assert_eq!(all_cards.len(), 52);
}

// --- further cases ---

#[test]
fn seeded_deal_is_shuffled() {
    let result = generate_deal(&free(7)).unwrap();
    let deck = create_deck();
    let mut dealt = Vec::new();
    for seat in SEATS {
        dealt.extend_from_slice(&result.deal.hand(seat).cards);
    }
    assert_eq!(dealt.len(), 52);
    assert_ne!(dealt, deck);
}

#[test]
fn unseeded_deal_is_complete() {
    let constraints = DealConstraints { seats: vec![], vulnerability: None, dealer: None, max_attempts: None, seed: None };
    let result = generate_deal(&constraints).unwrap();
    let total: u32 = SEATS.iter().map(|s| calculate_hcp(result.deal.hand(*s))).sum();
    assert_eq!(total, 40);
    assert_eq!(result.deal.dealer, Seat::North);
    assert_eq!(result.deal.vulnerability, Vulnerability::Neither);
}

#[test]
fn zero_budget_fails_at_once() {
    let constraints = DealConstraints { seats: vec![], vulnerability: None, dealer: None, max_attempts: Some(0), seed: Some(5) };
    let err = generate_deal(&constraints).unwrap_err();
    assert_eq!(err, EngineError::MaxAttemptsExceeded(0));
    assert_eq!(err.message(), "Failed to generate deal after 0 attempts");
}

#[test]
fn contradictory_lengths_exhaust_the_budget() {
    let mut sc = south(None, None, None);
    sc.min_length = Some([Some(7), None, None, None]);
    sc.max_length = Some([Some(6), None, None, None]);
    let constraints = DealConstraints { seats: vec![sc], vulnerability: None, dealer: None, max_attempts: Some(25), seed: Some(9) };
    assert_eq!(generate_deal(&constraints).unwrap_err(), EngineError::MaxAttemptsExceeded(25));
}

#[test]
fn generated_deal_meets_its_constraints() {
    let mut sc = south(Some(10), None, None);
    sc.max_length = Some([Some(4), Some(4), Some(4), Some(4)]);
    let constraints = DealConstraints { seats: vec![sc], vulnerability: None, dealer: None, max_attempts: Some(50_000), seed: Some(11) };
    let result = generate_deal(&constraints).unwrap();
    assert!(check_constraints(&result.deal, &constraints));
    assert!(result.iterations >= 1);
    let shape = get_suit_length(result.deal.hand(Seat::South));
    assert!(shape.iter().all(|&n| n <= 4));
    assert!(calculate_hcp(result.deal.hand(Seat::South)) >= 10);
}

#[test]
fn shuffle_with_draws_swaps_from_the_last_position_down() {
    let c = |rank| Card { suit: Suit::Hearts, rank };
    let cards = vec![c(Rank::Two), c(Rank::Three), c(Rank::Four), c(Rank::Five)];
    // position 3 swaps with 0, position 2 with 1, position 1 with 0
    let out = shuffle_with_draws(&cards, &vec![0, 1, 0]);
    assert_eq!(out, vec![c(Rank::Four), c(Rank::Five), c(Rank::Three), c(Rank::Two)]);
    // each position drawing itself leaves the order alone
    assert_eq!(shuffle_with_draws(&cards, &vec![3, 2, 1]), cards);
    assert!(shuffle_with_draws(&vec![], &vec![]).is_empty());
}
