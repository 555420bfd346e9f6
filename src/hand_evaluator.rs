use vstd::prelude::*;
use vstd::string::StringExecFns;

use crate::constants::{hcp_value, rank_hcp};
use crate::types::{Card, DistributionPoints, Hand, HandEvaluation, Suit, SuitLength};

verus! {

/// Sum of the high card points of `cards`.
pub open spec fn hcp_total(cards: Seq<Card>) -> nat
    decreases cards.len(),
{
    if cards.len() == 0 {
        0
    } else {
        hcp_total(cards.drop_last()) + rank_hcp(cards.last().rank)
    }
}

/// Number of cards of `suit` in `cards`.
pub open spec fn suit_count(cards: Seq<Card>, suit: Suit) -> nat
    decreases cards.len(),
{
    if cards.len() == 0 {
        0
    } else {
        suit_count(cards.drop_last(), suit) + if cards.last().suit == suit {
            1nat
        } else {
            0nat
        }
    }
}

/// The cards of `suit` in `cards`, in their order.
pub open spec fn cards_of_suit(cards: Seq<Card>, suit: Suit) -> Seq<Card>
    decreases cards.len(),
{
    if cards.len() == 0 {
        seq![]
    } else {
        let rest = cards_of_suit(cards.drop_last(), suit);
        if cards.last().suit == suit {
            rest.push(cards.last())
        } else {
            rest
        }
    }
}

/// The suit at position `i` of a suit-length vector: spades, hearts, diamonds, clubs.
pub open spec fn order_suit(i: int) -> Suit {
    if i == 0 {
        Suit::Spades
    } else if i == 1 {
        Suit::Hearts
    } else if i == 2 {
        Suit::Diamonds
    } else {
        Suit::Clubs
    }
}

pub open spec fn order_pos(suit: Suit) -> int {
    match suit {
        Suit::Spades => 0,
        Suit::Hearts => 1,
        Suit::Diamonds => 2,
        Suit::Clubs => 3,
    }
}

/// The suit-length vector of `cards`.
pub open spec fn shape_of(cards: Seq<Card>) -> Seq<int> {
    seq![
        suit_count(cards, Suit::Spades) as int,
        suit_count(cards, Suit::Hearts) as int,
        suit_count(cards, Suit::Diamonds) as int,
        suit_count(cards, Suit::Clubs) as int,
    ]
}

/// How many of the four lengths equal `v`.
pub open spec fn count_len(s: Seq<u8>, v: int) -> int {
    (if s[0] == v {
        1int
    } else {
        0
    }) + (if s[1] == v {
        1int
    } else {
        0
    }) + (if s[2] == v {
        1int
    } else {
        0
    }) + (if s[3] == v {
        1int
    } else {
        0
    })
}

/// The lengths, in some order, are 4-3-3-3, 4-4-3-2 or 5-3-3-2.
pub open spec fn balanced_spec(s: Seq<u8>) -> bool {
    ||| (count_len(s, 4) == 1 && count_len(s, 3) == 3)
    ||| (count_len(s, 4) == 2 && count_len(s, 3) == 1 && count_len(s, 2) == 1)
    ||| (count_len(s, 5) == 1 && count_len(s, 3) == 2 && count_len(s, 2) == 1)
}

/// Points for one suit's shortness: void 3, singleton 2, doubleton 1.
pub open spec fn shortness_points(n: int) -> int {
    if n == 0 {
        3
    } else if n == 1 {
        2
    } else if n == 2 {
        1
    } else {
        0
    }
}

/// Points for one suit's length: one for each card past the fourth.
pub open spec fn length_points(n: int) -> int {
    if n > 4 {
        n - 4
    } else {
        0
    }
}

pub open spec fn shortness_total(s: Seq<u8>) -> int {
    shortness_points(s[0] as int) + shortness_points(s[1] as int) + shortness_points(s[2] as int)
        + shortness_points(s[3] as int)
}

pub open spec fn length_total(s: Seq<u8>) -> int {
    length_points(s[0] as int) + length_points(s[1] as int) + length_points(s[2] as int)
        + length_points(s[3] as int)
}

proof fn lemma_hcp_bound(cards: Seq<Card>)
    ensures
        hcp_total(cards) <= 4 * cards.len(),
    decreases cards.len(),
{
    if cards.len() > 0 {
        lemma_hcp_bound(cards.drop_last());
    }
}

proof fn lemma_suit_count_bound(cards: Seq<Card>, suit: Suit)
    ensures
        suit_count(cards, suit) <= cards.len(),
    decreases cards.len(),
{
    if cards.len() > 0 {
        lemma_suit_count_bound(cards.drop_last(), suit);
    }
}

/// Sum of the high card points (A=4, K=3, Q=2, J=1) in the hand.
pub fn calculate_hcp(hand: &Hand) -> (r: u32)
    requires
        hand.cards@.len() <= u32::MAX / 4,
    ensures
        r == hcp_total(hand.cards@),
{
    let cards = &hand.cards;
    let mut total: u32 = 0;
    let mut i: usize = 0;
    while i < cards.len()
        invariant
            i <= cards@.len(),
            cards@.len() <= u32::MAX / 4,
            total == hcp_total(cards@.take(i as int)),
        decreases cards@.len() - i,
    {
        proof {
            assert(cards@.take(i + 1).drop_last() =~= cards@.take(i as int));
            lemma_hcp_bound(cards@.take(i as int));
        }
        total = total + hcp_value(cards[i].rank);
        i = i + 1;
    }
    assert(cards@.take(i as int) =~= cards@);
    total
}

fn suit_order_index(suit: Suit) -> (r: usize)
    ensures
        r == order_pos(suit),
{
    match suit {
        Suit::Spades => 0,
        Suit::Hearts => 1,
        Suit::Diamonds => 2,
        Suit::Clubs => 3,
    }
}

/// High card points and suit lengths in one pass.
pub fn calculate_hcp_and_shape(hand: &Hand) -> (r: (u32, SuitLength))
    requires
        hand.cards@.len() <= 255,
    ensures
        r.0 == hcp_total(hand.cards@),
        forall|k: int| 0 <= k < 4 ==> #[trigger] r.1@[k] == shape_of(hand.cards@)[k],
{
    let cards = &hand.cards;
    let mut hcp: u32 = 0;
    let mut counts: [u8; 4] = [0u8; 4];
    let mut i: usize = 0;
    while i < cards.len()
        invariant
            i <= cards@.len(),
            cards@.len() <= 255,
            hcp == hcp_total(cards@.take(i as int)),
            forall|k: int| 0 <= k < 4 ==> #[trigger] counts@[k] == suit_count(cards@.take(i as int), order_suit(k)),
        decreases cards@.len() - i,
    {
        let ghost prefix = cards@.take(i as int);
        proof {
            assert(cards@.take(i + 1).drop_last() =~= prefix);
            lemma_hcp_bound(prefix);
            lemma_suit_count_bound(prefix, order_suit(0));
            lemma_suit_count_bound(prefix, order_suit(1));
            lemma_suit_count_bound(prefix, order_suit(2));
            lemma_suit_count_bound(prefix, order_suit(3));
        }
        let card = cards[i];
        hcp = hcp + hcp_value(card.rank);
        let idx = suit_order_index(card.suit);
        counts[idx] = counts[idx] + 1;
        i = i + 1;
    }
    assert(cards@.take(i as int) =~= cards@);
    (hcp, counts)
}

/// Suit lengths ordered spades, hearts, diamonds, clubs.
pub fn get_suit_length(hand: &Hand) -> (r: SuitLength)
    requires
        hand.cards@.len() <= 255,
    ensures
        forall|k: int| 0 <= k < 4 ==> #[trigger] r@[k] == shape_of(hand.cards@)[k],
{
    let cards = &hand.cards;
    let mut counts: [u8; 4] = [0u8; 4];
    let mut i: usize = 0;
    while i < cards.len()
        invariant
            i <= cards@.len(),
            cards@.len() <= 255,
            forall|k: int| 0 <= k < 4 ==> #[trigger] counts@[k] == suit_count(cards@.take(i as int), order_suit(k)),
        decreases cards@.len() - i,
    {
        let ghost prefix = cards@.take(i as int);
        proof {
            assert(cards@.take(i + 1).drop_last() =~= prefix);
            lemma_suit_count_bound(prefix, order_suit(0));
            lemma_suit_count_bound(prefix, order_suit(1));
            lemma_suit_count_bound(prefix, order_suit(2));
            lemma_suit_count_bound(prefix, order_suit(3));
        }
        let idx = suit_order_index(cards[i].suit);
        counts[idx] = counts[idx] + 1;
        i = i + 1;
    }
    assert(cards@.take(i as int) =~= cards@);
    counts
}

/// True if the shape is 4-3-3-3, 4-4-3-2 or 5-3-3-2 in some order.
pub fn is_balanced(shape: &SuitLength) -> (r: bool)
    ensures
        r == balanced_spec(shape@),
{
    let mut a = shape[0];
    let mut b = shape[1];
    let mut c = shape[2];
    let mut d = shape[3];
    if a < b {
        std::mem::swap(&mut a, &mut b);
    }
    if c < d {
        std::mem::swap(&mut c, &mut d);
    }
    if a < c {
        std::mem::swap(&mut a, &mut c);
    }
    if b < d {
        std::mem::swap(&mut b, &mut d);
    }
    if b < c {
        std::mem::swap(&mut b, &mut c);
    }
    (a == 4 && b == 3 && c == 3 && d == 3) || (a == 4 && b == 4 && c == 3 && d == 2) || (a == 5
        && b == 3 && c == 3 && d == 2)
}

/// Shortness points (void 3, singleton 2, doubleton 1) and length points
/// (one per card past the fourth), summed over the four suits.
pub fn calculate_distribution_points(shape: &SuitLength) -> (r: DistributionPoints)
    ensures
        r.shortness == shortness_total(shape@),
        r.length == length_total(shape@),
        r.total == shortness_total(shape@) + length_total(shape@),
{
    let mut shortness: u32 = 0;
    let mut length: u32 = 0;
    let mut i: usize = 0;
    while i < 4
        invariant
            i <= 4,
            shortness == shortness_total(shape@.take(i as int) + seq![3u8, 3u8, 3u8, 3u8].take(4 - i)),
            length == length_total(shape@.take(i as int) + seq![3u8, 3u8, 3u8, 3u8].take(4 - i)),
        decreases 4 - i,
    {
        let count = shape[i];
        if count == 0 {
            shortness = shortness + 3;
        } else if count == 1 {
            shortness = shortness + 2;
        } else if count == 2 {
            shortness = shortness + 1;
        }
        if count > 4 {
            length = length + (count - 4) as u32;
        }
        i = i + 1;
        assert(shape@.take(i as int) + seq![3u8, 3u8, 3u8, 3u8].take(4 - i) =~= (shape@.take(i - 1)
            + seq![3u8, 3u8, 3u8, 3u8].take(4 - (i - 1))).update(i - 1, count));
    }
    assert(shape@.take(4) + seq![3u8, 3u8, 3u8, 3u8].take(0) =~= shape@);
    DistributionPoints { shortness, length, total: shortness + length }
}

/// The cards of `suit` in the hand, in their order.
pub fn get_cards_in_suit(hand: &Hand, suit: Suit) -> (r: Vec<Card>)
    ensures
        r@ == cards_of_suit(hand.cards@, suit),
{
    let cards = &hand.cards;
    let mut out: Vec<Card> = Vec::new();
    let mut i: usize = 0;
    while i < cards.len()
        invariant
            i <= cards@.len(),
            out@ == cards_of_suit(cards@.take(i as int), suit),
        decreases cards@.len() - i,
    {
        assert(cards@.take(i + 1).drop_last() =~= cards@.take(i as int));
        if cards[i].suit == suit {
            out.push(cards[i]);
        }
        i = i + 1;
    }
    assert(cards@.take(i as int) =~= cards@);
    out
}

/// A point-count method for hands.
pub trait HandEvaluationStrategy {
    fn name(&self) -> &str;

    fn evaluate(&self, hand: &Hand) -> HandEvaluation
        requires
            hand.cards@.len() <= 255,
    ;
}

/// The default method: high card points plus distribution points.
pub struct HcpStrategy;

impl HandEvaluationStrategy for HcpStrategy {
    fn name(&self) -> (r: &str)
        ensures
            r@ == "HCP"@,
    {
        "HCP"
    }

    fn evaluate(&self, hand: &Hand) -> (r: HandEvaluation)
        ensures
            r.hcp == hcp_total(hand.cards@),
            forall|k: int| 0 <= k < 4 ==> #[trigger] r.shape@[k] == shape_of(hand.cards@)[k],
            r.distribution.shortness == shortness_total(r.shape@),
            r.distribution.length == length_total(r.shape@),
            r.distribution.total == shortness_total(r.shape@) + length_total(r.shape@),
            r.total_points == r.hcp + r.distribution.total,
            r.strategy@ == "HCP"@,
    {
        proof {
            lemma_hcp_bound(hand.cards@);
        }
        let hcp = calculate_hcp(hand);
        let shape = get_suit_length(hand);
        let distribution = calculate_distribution_points(&shape);
        HandEvaluation {
            hcp,
            distribution,
            shape,
            total_points: hcp + distribution.total,
            strategy: String::from_str("HCP"),
        }
    }
}

/// Evaluate a hand with the given method: the result is what the method's
/// `evaluate` returns for the hand.
pub fn evaluate_hand<S: HandEvaluationStrategy>(hand: &Hand, strategy: &S) -> (r: HandEvaluation)
    requires
        hand.cards@.len() <= 255,
    ensures
        call_ensures(S::evaluate, (strategy, hand), r),
{
    strategy.evaluate(hand)
}

/// Evaluate a hand with the default high-card-point method.
pub fn evaluate_hand_hcp(hand: &Hand) -> (r: HandEvaluation)
    requires
        hand.cards@.len() <= 255,
    ensures
        r.hcp == hcp_total(hand.cards@),
        forall|k: int| 0 <= k < 4 ==> #[trigger] r.shape@[k] == shape_of(hand.cards@)[k],
        r.distribution.shortness == shortness_total(r.shape@),
        r.distribution.length == length_total(r.shape@),
        r.distribution.total == shortness_total(r.shape@) + length_total(r.shape@),
        r.total_points == r.hcp + r.distribution.total,
        r.strategy@ == "HCP"@,
{
    HcpStrategy.evaluate(hand)
}

} // verus!
