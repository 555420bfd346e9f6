use std::cmp::Ordering;

use bridge_engine::{
    add_call, compare_bids, get_contract, get_declarer, get_legal_calls, is_auction_complete,
    is_legal_call, Auction, AuctionEntry, BidSuit, Call, EngineError, Seat,
};

fn empty_auction() -> Auction {
    Auction { entries: vec![], is_complete: false }
}

fn entry(seat: Seat, call: Call) -> AuctionEntry {
    AuctionEntry { seat, call }
}

#[test]
fn compare_bids_level_first() {
    assert_eq!(compare_bids(1, BidSuit::NoTrump, 2, BidSuit::Clubs), Ordering::Less);
    assert_eq!(compare_bids(2, BidSuit::Clubs, 1, BidSuit::NoTrump), Ordering::Greater);
}

#[test]
fn compare_bids_strain_rank() {
    assert_eq!(compare_bids(1, BidSuit::Clubs, 1, BidSuit::Diamonds), Ordering::Less);
    assert_eq!(compare_bids(1, BidSuit::Spades, 1, BidSuit::NoTrump), Ordering::Less);
    assert_eq!(compare_bids(1, BidSuit::NoTrump, 1, BidSuit::NoTrump), Ordering::Equal);
}

#[test]
fn pass_always_legal() {
    let auction = empty_auction();
    assert!(is_legal_call(&auction, &Call::Pass, Seat::North));
}

#[test]
fn first_bid_always_legal() {
    let auction = empty_auction();
    assert!(is_legal_call(&auction, &Call::Bid { level: 1, strain: BidSuit::Clubs }, Seat::North));
}

#[test]
fn bid_must_be_higher() {
    let mut auction = empty_auction();
    auction.entries.push(entry(Seat::North, Call::Bid { level: 1, strain: BidSuit::Hearts }));
    assert!(is_legal_call(&auction, &Call::Bid { level: 1, strain: BidSuit::Spades }, Seat::East));
    assert!(!is_legal_call(&auction, &Call::Bid { level: 1, strain: BidSuit::Clubs }, Seat::East));
    assert!(!is_legal_call(&auction, &Call::Bid { level: 1, strain: BidSuit::Hearts }, Seat::East));
    assert!(is_legal_call(&auction, &Call::Bid { level: 2, strain: BidSuit::Clubs }, Seat::East));
}

#[test]
fn double_requires_opponent_bid() {
    let mut auction = empty_auction();
    assert!(!is_legal_call(&auction, &Call::Double, Seat::North));
    auction.entries.push(entry(Seat::North, Call::Bid { level: 1, strain: BidSuit::Clubs }));
    assert!(is_legal_call(&auction, &Call::Double, Seat::East));
    assert!(!is_legal_call(&auction, &Call::Double, Seat::South));
}

#[test]
fn redouble_requires_opponent_double() {
    let mut auction = empty_auction();
    auction.entries.push(entry(Seat::North, Call::Bid { level: 1, strain: BidSuit::Clubs }));
    auction.entries.push(entry(Seat::East, Call::Double));
    assert!(is_legal_call(&auction, &Call::Redouble, Seat::South));
    assert!(!is_legal_call(&auction, &Call::Redouble, Seat::West));
    assert!(is_legal_call(&auction, &Call::Redouble, Seat::North));
}

#[test]
fn passout_four_passes() {
    let mut auction = empty_auction();
    auction.entries.push(entry(Seat::North, Call::Pass));
    auction.entries.push(entry(Seat::East, Call::Pass));
    auction.entries.push(entry(Seat::South, Call::Pass));
    auction.entries.push(entry(Seat::West, Call::Pass));
    assert!(is_auction_complete(&auction));
}

#[test]
fn three_passes_after_bid() {
    let mut auction = empty_auction();
    auction.entries.push(entry(Seat::North, Call::Bid { level: 1, strain: BidSuit::Clubs }));
    auction.entries.push(entry(Seat::East, Call::Pass));
    auction.entries.push(entry(Seat::South, Call::Pass));
    assert!(!is_auction_complete(&auction));
    auction.entries.push(entry(Seat::West, Call::Pass));
    assert!(is_auction_complete(&auction));
}

#[test]
fn auction_not_complete_with_bids() {
    let mut auction = empty_auction();
    auction.entries.push(entry(Seat::North, Call::Bid { level: 1, strain: BidSuit::Clubs }));
    auction.entries.push(entry(Seat::East, Call::Bid { level: 1, strain: BidSuit::Diamonds }));
    auction.entries.push(entry(Seat::South, Call::Pass));
    auction.entries.push(entry(Seat::West, Call::Pass));
    assert!(!is_auction_complete(&auction));
}

#[test]
fn add_call_validates() {
    let auction = empty_auction();
    let result = add_call(&auction, entry(Seat::North, Call::Double));
    assert!(result.is_err());
}

#[test]
fn add_call_updates_complete() {
    let mut auction = empty_auction();
    auction = add_call(&auction, entry(Seat::North, Call::Bid { level: 1, strain: BidSuit::Clubs })).unwrap();
    assert!(!auction.is_complete);
    auction = add_call(&auction, entry(Seat::East, Call::Pass)).unwrap();
    auction = add_call(&auction, entry(Seat::South, Call::Pass)).unwrap();
    auction = add_call(&auction, entry(Seat::West, Call::Pass)).unwrap();
    assert!(auction.is_complete);
}

#[test]
fn cannot_add_to_complete_auction() {
    let mut auction = empty_auction();
    auction = add_call(&auction, entry(Seat::North, Call::Pass)).unwrap();
    auction = add_call(&auction, entry(Seat::East, Call::Pass)).unwrap();
    auction = add_call(&auction, entry(Seat::South, Call::Pass)).unwrap();
    auction = add_call(&auction, entry(Seat::West, Call::Pass)).unwrap();
    let result = add_call(&auction, entry(Seat::North, Call::Pass));
    assert!(result.is_err());
}

#[test]
fn declarer_first_to_name_strain() {
    let mut auction = empty_auction();
    auction.entries.push(entry(Seat::North, Call::Bid { level: 1, strain: BidSuit::Spades }));
    auction.entries.push(entry(Seat::East, Call::Pass));
    auction.entries.push(entry(Seat::South, Call::Bid { level: 2, strain: BidSuit::Spades }));
    auction.entries.push(entry(Seat::West, Call::Pass));
    auction.entries.push(entry(Seat::North, Call::Pass));
    auction.entries.push(entry(Seat::East, Call::Pass));
    let declarer = get_declarer(&auction).unwrap();
    assert_eq!(declarer, Seat::North);
}

#[test]
fn declarer_ew_partnership() {
    let mut auction = empty_auction();
    auction.entries.push(entry(Seat::North, Call::Pass));
    auction.entries.push(entry(Seat::East, Call::Bid { level: 1, strain: BidSuit::Hearts }));
    auction.entries.push(entry(Seat::South, Call::Pass));
    auction.entries.push(entry(Seat::West, Call::Bid { level: 4, strain: BidSuit::Hearts }));
    auction.entries.push(entry(Seat::North, Call::Pass));
    auction.entries.push(entry(Seat::East, Call::Pass));
    auction.entries.push(entry(Seat::South, Call::Pass));
    let declarer = get_declarer(&auction).unwrap();
    assert_eq!(declarer, Seat::East);
}

#[test]
fn passout_returns_none_contract() {
    let mut auction = empty_auction();
    auction.entries.push(entry(Seat::North, Call::Pass));
    auction.entries.push(entry(Seat::East, Call::Pass));
    auction.entries.push(entry(Seat::South, Call::Pass));
    auction.entries.push(entry(Seat::West, Call::Pass));
    let contract = get_contract(&auction).unwrap();
    assert!(contract.is_none());
}

#[test]
fn contract_extraction() {
    let mut auction = empty_auction();
    auction.entries.push(entry(Seat::North, Call::Bid { level: 3, strain: BidSuit::NoTrump }));
    auction.entries.push(entry(Seat::East, Call::Pass));
    auction.entries.push(entry(Seat::South, Call::Pass));
    auction.entries.push(entry(Seat::West, Call::Pass));
    let contract = get_contract(&auction).unwrap().unwrap();
    assert_eq!(contract.level, 3);
    assert_eq!(contract.strain, BidSuit::NoTrump);
    assert!(!contract.doubled);
    assert!(!contract.redoubled);
    assert_eq!(contract.declarer, Seat::North);
}

#[test]
fn doubled_contract() {
    let mut auction = empty_auction();
    auction.entries.push(entry(Seat::North, Call::Bid { level: 1, strain: BidSuit::Clubs }));
    auction.entries.push(entry(Seat::East, Call::Double));
    auction.entries.push(entry(Seat::South, Call::Pass));
    auction.entries.push(entry(Seat::West, Call::Pass));
    auction.entries.push(entry(Seat::North, Call::Pass));
    let contract = get_contract(&auction).unwrap().unwrap();
    assert!(contract.doubled);
    assert!(!contract.redoubled);
}

#[test]
fn redoubled_contract() {
    let mut auction = empty_auction();
    auction.entries.push(entry(Seat::North, Call::Bid { level: 1, strain: BidSuit::Clubs }));
    auction.entries.push(entry(Seat::East, Call::Double));
    auction.entries.push(entry(Seat::South, Call::Redouble));
    auction.entries.push(entry(Seat::West, Call::Pass));
    auction.entries.push(entry(Seat::North, Call::Pass));
    auction.entries.push(entry(Seat::East, Call::Pass));
    let contract = get_contract(&auction).unwrap().unwrap();
    assert!(!contract.doubled);
    assert!(contract.redoubled);
}

#[test]
fn auction_get_legal_calls_opening() {
    let auction = empty_auction();
    let calls = get_legal_calls(&auction, Seat::North);
    assert_eq!(calls.len(), 36);
    assert!(calls.contains(&Call::Pass));
    assert!(calls.contains(&Call::Bid { level: 1, strain: BidSuit::Clubs }));
    assert!(calls.contains(&Call::Bid { level: 7, strain: BidSuit::NoTrump }));
    assert!(!calls.contains(&Call::Double));
}

#[test]
fn get_legal_calls_after_bid() {
    let mut auction = empty_auction();
    auction.entries.push(entry(Seat::North, Call::Bid { level: 1, strain: BidSuit::Hearts }));
    let calls = get_legal_calls(&auction, Seat::East);
    assert!(calls.contains(&Call::Pass));
    assert!(calls.contains(&Call::Double));
    assert!(!calls.contains(&Call::Redouble));
    assert!(!calls.contains(&Call::Bid { level: 1, strain: BidSuit::Clubs }));
    assert!(!calls.contains(&Call::Bid { level: 1, strain: BidSuit::Hearts }));
    assert!(calls.contains(&Call::Bid { level: 1, strain: BidSuit::Spades }));
}

#[test]
fn complete_auction_returns_no_legal_calls() {
    let mut auction = empty_auction();
    auction.entries.push(entry(Seat::North, Call::Pass));
    auction.entries.push(entry(Seat::East, Call::Pass));
    auction.entries.push(entry(Seat::South, Call::Pass));
    auction.entries.push(entry(Seat::West, Call::Pass));
    auction.is_complete = true;
    let calls = get_legal_calls(&auction, Seat::North);
    assert!(calls.is_empty());
}

#[test]
fn double_with_intervening_passes() {
    let mut auction = empty_auction();
    auction.entries.push(entry(Seat::North, Call::Bid { level: 1, strain: BidSuit::Clubs }));
    auction.entries.push(entry(Seat::East, Call::Pass));
    auction.entries.push(entry(Seat::South, Call::Pass));
    assert!(is_legal_call(&auction, &Call::Double, Seat::West));
}

// --- further cases ---

#[test]
fn legal_calls_on_empty_auction_are_pass_then_bids_in_order() {
    let calls = get_legal_calls(&empty_auction(), Seat::South);
    assert_eq!(calls.len(), 36);
    assert_eq!(calls[0], Call::Pass);
    assert_eq!(calls[1], Call::Bid { level: 1, strain: BidSuit::Clubs });
    assert_eq!(calls[5], Call::Bid { level: 1, strain: BidSuit::NoTrump });
    assert_eq!(calls[6], Call::Bid { level: 2, strain: BidSuit::Clubs });
    assert_eq!(calls[35], Call::Bid { level: 7, strain: BidSuit::NoTrump });
}

#[test]
fn bid_order_runs_one_club_to_seven_no_trump() {
    let strains = [BidSuit::Clubs, BidSuit::Diamonds, BidSuit::Hearts, BidSuit::Spades, BidSuit::NoTrump];
    let mut bids = Vec::new();
    for level in 1..=7u8 {
        for s in strains {
            bids.push((level, s));
        }
    }
    for i in 0..bids.len() {
        for j in 0..bids.len() {
            let expected = i.cmp(&j);
            assert_eq!(compare_bids(bids[i].0, bids[i].1, bids[j].0, bids[j].1), expected);
        }
    }
}

#[test]
fn double_of_own_bid_is_illegal() {
    let mut auction = empty_auction();
    auction.entries.push(entry(Seat::North, Call::Bid { level: 1, strain: BidSuit::Clubs }));
    assert!(!is_legal_call(&auction, &Call::Double, Seat::North));
}

#[test]
fn double_after_double_is_illegal() {
    let mut auction = empty_auction();
    auction.entries.push(entry(Seat::North, Call::Bid { level: 1, strain: BidSuit::Clubs }));
    auction.entries.push(entry(Seat::East, Call::Double));
    assert!(!is_legal_call(&auction, &Call::Double, Seat::South));
}

#[test]
fn two_bids_then_three_passes_completes() {
    let mut auction = empty_auction();
    auction = add_call(&auction, entry(Seat::North, Call::Bid { level: 1, strain: BidSuit::Clubs })).unwrap();
    auction = add_call(&auction, entry(Seat::East, Call::Bid { level: 1, strain: BidSuit::Diamonds })).unwrap();
    auction = add_call(&auction, entry(Seat::South, Call::Pass)).unwrap();
    auction = add_call(&auction, entry(Seat::West, Call::Pass)).unwrap();
    assert!(!auction.is_complete);
    auction = add_call(&auction, entry(Seat::North, Call::Pass)).unwrap();
    assert!(auction.is_complete);
}

#[test]
fn add_call_leaves_prior_auction_unchanged() {
    let start = add_call(&empty_auction(), entry(Seat::North, Call::Bid { level: 1, strain: BidSuit::Clubs })).unwrap();
    let a = add_call(&start, entry(Seat::East, Call::Pass)).unwrap();
    let b = add_call(&start, entry(Seat::East, Call::Double)).unwrap();
    assert_eq!(start.entries.len(), 1);
    assert_eq!(a.entries.len(), 2);
    assert_eq!(b.entries.len(), 2);
    assert_eq!(a.entries[1].call, Call::Pass);
    assert_eq!(b.entries[1].call, Call::Double);
    assert_eq!(a.entries[0], start.entries[0]);
    assert_eq!(b.entries[0], start.entries[0]);
}

#[test]
fn illegal_call_error_describes_the_call() {
    let start = add_call(&empty_auction(), entry(Seat::North, Call::Bid { level: 3, strain: BidSuit::NoTrump })).unwrap();
    let err = add_call(&start, entry(Seat::East, Call::Bid { level: 2, strain: BidSuit::Spades })).unwrap_err();
    assert_eq!(err, EngineError::IllegalCall("Bid { level: 2, strain: Spades }".to_string()));
    assert_eq!(err.message(), "Illegal call: Bid { level: 2, strain: Spades }");
    let err = add_call(&empty_auction(), entry(Seat::North, Call::Double)).unwrap_err();
    assert_eq!(err.message(), "Illegal call: Double");
}

#[test]
fn complete_auction_error_is_auction_complete() {
    let mut auction = empty_auction();
    for seat in [Seat::North, Seat::East, Seat::South, Seat::West] {
        auction = add_call(&auction, entry(seat, Call::Pass)).unwrap();
    }
    let err = add_call(&auction, entry(Seat::North, Call::Pass)).unwrap_err();
    assert_eq!(err, EngineError::AuctionComplete);
    assert_eq!(err.message(), "Cannot add call to completed auction");
}

#[test]
fn declarer_without_bids_is_an_error() {
    let mut auction = empty_auction();
    auction.entries.push(entry(Seat::North, Call::Pass));
    let err = get_declarer(&auction).unwrap_err();
    assert_eq!(err, EngineError::NoBidsInAuction);
    assert_eq!(err.message(), "No bids in auction — cannot determine declarer");
}

#[test]
fn declarer_through_opponents_sacrifice() {
    // N 1S, E 2H, S 2S, W 4H, N 4S: North first named spades
    let mut auction = empty_auction();
    auction.entries.push(entry(Seat::North, Call::Bid { level: 1, strain: BidSuit::Spades }));
    auction.entries.push(entry(Seat::East, Call::Bid { level: 2, strain: BidSuit::Hearts }));
    auction.entries.push(entry(Seat::South, Call::Bid { level: 2, strain: BidSuit::Spades }));
    auction.entries.push(entry(Seat::West, Call::Bid { level: 4, strain: BidSuit::Hearts }));
    auction.entries.push(entry(Seat::North, Call::Bid { level: 4, strain: BidSuit::Spades }));
    assert_eq!(get_declarer(&auction).unwrap(), Seat::North);
    let c = get_contract(&auction).unwrap().unwrap();
    assert_eq!(c.level, 4);
    assert_eq!(c.strain, BidSuit::Spades);
}
