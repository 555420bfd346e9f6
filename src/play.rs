use vstd::prelude::*;

use crate::constants::{rank_index, rank_num};
use crate::error::EngineError;
use crate::hand_evaluator::cards_of_suit;
use crate::types::{Card, Hand, PlayedCard, Seat, Suit, Trick};

verus! {

/// The cards that may be played: all of them with no lead or when void in
/// the led suit, otherwise only those of the led suit.
pub open spec fn legal_plays_spec(cards: Seq<Card>, lead: Option<Suit>) -> Seq<Card> {
    match lead {
        None => cards,
        Some(suit) => {
            let follow = cards_of_suit(cards, suit);
            if follow.len() == 0 {
                cards
            } else {
                follow
            }
        },
    }
}

pub open spec fn has_suit(p: Seq<PlayedCard>, suit: Suit) -> bool {
    exists|j: int| 0 <= j < p.len() && (#[trigger] p[j]).card.suit == suit
}

/// The suit whose highest card takes the trick: trumps if any were played,
/// otherwise the suit led.
pub open spec fn winning_suit(p: Seq<PlayedCard>, trump: Option<Suit>) -> Suit {
    match trump {
        Some(t) => if has_suit(p, t) {
            t
        } else {
            p[0].card.suit
        },
        None => p[0].card.suit,
    }
}

/// Play `k` is a highest play of `suit` (distinct cards leave one).
pub open spec fn top_of_suit(p: Seq<PlayedCard>, suit: Suit, k: int) -> bool {
    &&& 0 <= k < p.len()
    &&& p[k].card.suit == suit
    &&& forall|j: int|
        0 <= j < p.len() && (#[trigger] p[j]).card.suit == suit ==> rank_num(p[j].card.rank)
            <= rank_num(p[k].card.rank)
}

/// `seat` wins the four plays `p` with trump suit `trump`.
pub open spec fn trick_won_by(p: Seq<PlayedCard>, trump: Option<Suit>, seat: Seat) -> bool {
    exists|k: int| #[trigger] top_of_suit(p, winning_suit(p, trump), k) && p[k].seat == seat
}

/// The cards the hand may play to a trick led in `lead_suit`.
pub fn get_legal_plays(hand: &Hand, lead_suit: Option<Suit>) -> (r: Vec<Card>)
    ensures
        r@ == legal_plays_spec(hand.cards@, lead_suit),
{
    let cards = &hand.cards;
    match lead_suit {
        None => copy_cards(cards),
        Some(suit) => {
            let mut follow: Vec<Card> = Vec::new();
            let mut i: usize = 0;
            while i < cards.len()
                invariant
                    i <= cards@.len(),
                    follow@ == cards_of_suit(cards@.take(i as int), suit),
                decreases cards@.len() - i,
            {
                assert(cards@.take(i + 1).drop_last() =~= cards@.take(i as int));
                if cards[i].suit == suit {
                    follow.push(cards[i]);
                }
                i = i + 1;
            }
            assert(cards@.take(i as int) =~= cards@);
            if follow.len() == 0 {
                copy_cards(cards)
            } else {
                follow
            }
        },
    }
}

fn copy_cards(cards: &Vec<Card>) -> (r: Vec<Card>)
    ensures
        r@ == cards@,
{
    let mut out: Vec<Card> = Vec::with_capacity(cards.len());
    let mut i: usize = 0;
    while i < cards.len()
        invariant
            i <= cards@.len(),
            out@ == cards@.take(i as int),
        decreases cards@.len() - i,
    {
        out.push(cards[i]);
        i = i + 1;
        assert(out@ =~= cards@.take(i as int));
    }
    assert(out@ =~= cards@);
    out
}

/// Index of a highest play of `suit`; `None` if no play is of `suit`.
fn top_play(plays: &Vec<PlayedCard>, suit: Suit) -> (r: Option<usize>)
    ensures
        r matches Some(k) ==> top_of_suit(plays@, suit, k as int),
        r is None ==> !has_suit(plays@, suit),
{
    let mut best: Option<usize> = None;
    let mut i: usize = 0;
    while i < plays.len()
        invariant
            i <= plays@.len(),
            best is None ==> forall|j: int| 0 <= j < i ==> (#[trigger] plays@[j]).card.suit != suit,
            best matches Some(k) ==> k < i && top_of_suit(plays@.take(i as int), suit, k as int),
        decreases plays@.len() - i,
    {
        let p = plays[i];
        if p.card.suit == suit {
            match best {
                None => {
                    best = Some(i);
                },
                Some(k) => {
                    if rank_index(p.card.rank) >= rank_index(plays[k].card.rank) {
                        best = Some(i);
                    }
                },
            }
        }
        i = i + 1;
    }
    assert(plays@.take(i as int) =~= plays@);
    best
}

/// The seat that wins a complete trick.
pub fn get_trick_winner(trick: &Trick) -> (r: Result<Seat, EngineError>)
    ensures
        trick.plays@.len() != 4 ==> r == Err::<Seat, EngineError>(EngineError::IncompleteTrick),
        trick.plays@.len() == 4 ==> (r matches Ok(seat) && trick_won_by(
            trick.plays@,
            trick.trump_suit,
            seat,
        )),
{
    if trick.plays.len() != 4 {
        return Err(EngineError::IncompleteTrick);
    }
    let lead_suit = trick.plays[0].card.suit;
    if let Some(trump) = trick.trump_suit {
        if let Some(k) = top_play(&trick.plays, trump) {
            return Ok(trick.plays[k].seat);
        }
    }
    match top_play(&trick.plays, lead_suit) {
        Some(k) => Ok(trick.plays[k].seat),
        None => {
            assert(trick.plays@[0].card.suit == lead_suit);
            Err(EngineError::IncompleteTrick)
        },
    }
}

/// When trumps are played, the trick goes to a trump, whatever the ranks of
/// the other cards.
pub proof fn lemma_trump_beats_other_suits(p: Seq<PlayedCard>, trump: Suit, seat: Seat)
    requires
        p.len() == 4,
        has_suit(p, trump),
        trick_won_by(p, Some(trump), seat),
    ensures
        exists|k: int| 0 <= k < 4 && p[k].seat == seat && (#[trigger] p[k]).card.suit == trump,
{
    let k = choose|k: int| #[trigger] top_of_suit(p, winning_suit(p, Some(trump)), k) && p[k].seat == seat;
    assert(p[k].card.suit == trump);
}

} // verus!
