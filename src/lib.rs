pub mod types;
pub mod error;
pub mod constants;
pub mod auction;
pub mod scoring;
pub mod hand_evaluator;
pub mod play;
pub mod deal_generator;

pub use types::{
    Auction, AuctionEntry, BidSuit, Call, Card, Contract, DDSolution, Deal, DealConstraints,
    DealGeneratorResult, DistributionPoints, DoubleDummySolver, PlayStrategy, Hand, HandEvaluation, PlayedCard, Rank, Seat,
    SeatConstraint, Suit, SuitLength, SuitLimits, Trick, Vulnerability,
};
pub use error::EngineError;
pub use constants::{create_deck, create_hand, next_seat, partner_seat};
pub use auction::{
    add_call, compare_bids, get_contract, get_declarer, get_legal_calls, is_auction_complete,
    is_legal_call,
};
pub use scoring::calculate_score;
pub use hand_evaluator::{
    calculate_distribution_points, calculate_hcp, evaluate_hand, evaluate_hand_hcp,
    get_suit_length, is_balanced, HandEvaluationStrategy, HcpStrategy,
};
pub use play::{get_legal_plays, get_trick_winner};
pub use deal_generator::{check_constraints, generate_deal, shuffle_with_draws};
