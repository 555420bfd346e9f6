use vstd::prelude::*;

use rand::Rng;
use rand::SeedableRng;
use rand::rngs::ThreadRng;
use rand_chacha::ChaCha8Rng;

use crate::constants::{create_deck, full_deck, lemma_full_deck_complete, rank_hcp, rank_at, seat_index, seat_num};
use crate::error::EngineError;
use crate::hand_evaluator::{
    balanced_spec, calculate_hcp, calculate_hcp_and_shape, get_suit_length, hcp_total, is_balanced,
    shape_of,
};
use crate::types::{
    Card, Deal, DealConstraints, DealGeneratorResult, Hand, Seat, SeatConstraint, SuitLength,
    SuitLimits, Vulnerability,
};

verus! {

broadcast use vstd::seq_lib::group_to_multiset_ensures;

/// Attempt budget when the constraints name none.
pub const DEFAULT_MAX_ATTEMPTS: u32 = 10000;

#[verifier::external_type_specification]
#[verifier::external_body]
pub struct ExChaCha8Rng(ChaCha8Rng);

#[verifier::external_type_specification]
#[verifier::external_body]
pub struct ExThreadRng(ThreadRng);

/// What `gen_range(0..=upper)` returns from a ChaCha8 generator made by
/// `seed_from_u64(seed)` that has already served one such draw for each
/// bound in `before`, in order.
pub uninterp spec fn chacha8_draw(seed: u64, before: Seq<u64>, upper: u64) -> u64;

/// A ChaCha8 generator with the seed it was made from and the bounds of the
/// draws it has served. Only `seeded_rng` builds one and only `draw_seeded`
/// draws from it, so `seed` and `drawn` always describe the generator's state.
pub struct SeededRng {
    rng: ChaCha8Rng,
    seed: Ghost<u64>,
    drawn: Ghost<Seq<u64>>,
}

impl SeededRng {
    pub closed spec fn seed(&self) -> u64 {
        self.seed@
    }

    pub closed spec fn drawn(&self) -> Seq<u64> {
        self.drawn@
    }
}

/// Relies on rand_chacha's `ChaCha8Rng::seed_from_u64` (rand_core's
/// `SeedableRng`): a fresh generator made from `seed`, which has served no
/// draws and whose stream depends on the seed alone.
#[verifier::external_body]
fn seeded_rng(seed: u64) -> (r: SeededRng)
    ensures
        r.seed() == seed,
        r.drawn() == Seq::<u64>::empty(),
{
    SeededRng { rng: ChaCha8Rng::seed_from_u64(seed), seed: Ghost(seed), drawn: Ghost(Seq::empty()) }
}

/// Relies on `rand::thread_rng`: the thread's generator, seeded from system
/// entropy (rand panics if the operating system cannot supply it).
#[verifier::external_body]
fn entropy_rng() -> ThreadRng {
    rand::thread_rng()
}

/// Relies on `rand::Rng::gen_range` over the inclusive range `0..=upper`,
/// which is never empty: a value in that range. ChaCha8 is deterministic, so
/// the value depends only on the seed and the bounds of the earlier draws.
#[verifier::external_body]
fn draw_seeded(g: &mut SeededRng, upper: u64) -> (r: u64)
    ensures
        r <= upper,
        r == chacha8_draw(old(g).seed(), old(g).drawn(), upper),
        final(g).seed() == old(g).seed(),
        final(g).drawn() == old(g).drawn().push(upper),
{
    g.rng.gen_range(0..=upper)
}

/// Relies on `rand::Rng::gen_range` over the inclusive range `0..=upper`,
/// which is never empty: a value in that range.
#[verifier::external_body]
fn draw_entropy(rng: &mut ThreadRng, upper: u64) -> (r: u64)
    ensures
        r <= upper,
{
    rng.gen_range(0..=upper)
}

/// The random source of one generation: seeded, or the thread's generator
/// drawn from system entropy.
enum DealRng {
    Seeded(SeededRng),
    Entropy(ThreadRng),
}

spec fn seed_of(r: DealRng) -> u64 {
    match r {
        DealRng::Seeded(g) => g.seed(),
        DealRng::Entropy(_) => 0,
    }
}

spec fn drawn_of(r: DealRng) -> Seq<u64> {
    match r {
        DealRng::Seeded(g) => g.drawn(),
        DealRng::Entropy(_) => Seq::empty(),
    }
}

fn draw(rng: &mut DealRng, upper: u64) -> (r: u64)
    ensures
        r <= upper,
        (*old(rng)) is Seeded ==> {
            &&& *final(rng) is Seeded
            &&& r == chacha8_draw(seed_of(*old(rng)), drawn_of(*old(rng)), upper)
            &&& seed_of(*final(rng)) == seed_of(*old(rng))
            &&& drawn_of(*final(rng)) == drawn_of(*old(rng)).push(upper)
        },
        *old(rng) is Entropy ==> *final(rng) is Entropy,
{
    match rng {
        DealRng::Seeded(g) => draw_seeded(g, upper),
        DealRng::Entropy(g) => draw_entropy(g, upper),
    }
}

/// Fisher-Yates on `buf` at positions `i - 1` down to 1: position `i - 1`
/// swaps with position `draws[0]`, and the later positions use the later
/// draws in order.
pub open spec fn swaps_from(buf: Seq<Card>, i: nat, draws: Seq<u64>) -> Seq<Card>
    decreases i,
{
    if i <= 1 {
        buf
    } else {
        let k = i - 1;
        let j = draws[0] as int;
        swaps_from(buf.update(k, buf[j]).update(j, buf[k]), (i - 1) as nat, draws.drop_first())
    }
}

/// `draws` fit a shuffle of `n` cards: one for each position from `n - 1`
/// down to 1, none beyond its position.
pub open spec fn draws_fit(n: nat, draws: Seq<u64>) -> bool {
    &&& draws.len() == (if n <= 1 {
        0
    } else {
        n - 1
    })
    &&& forall|k: int| 0 <= k < draws.len() ==> #[trigger] draws[k] <= n - 1 - k
}

/// The bounds of the draws of a shuffle at positions `i - 1` down to 1.
pub open spec fn shuffle_bounds(i: nat) -> Seq<u64>
    decreases i,
{
    if i <= 1 {
        seq![]
    } else {
        seq![(i - 1) as u64] + shuffle_bounds((i - 1) as nat)
    }
}

/// The draws of a shuffle at positions `i - 1` down to 1 from a ChaCha8
/// generator made from `seed` that has served draws with the bounds `drawn`.
pub open spec fn seeded_draws(i: nat, seed: u64, drawn: Seq<u64>) -> Seq<u64>
    decreases i,
{
    if i <= 1 {
        seq![]
    } else {
        seq![chacha8_draw(seed, drawn, (i - 1) as u64)] + seeded_draws(
            (i - 1) as nat,
            seed,
            drawn.push((i - 1) as u64),
        )
    }
}

/// The Fisher-Yates shuffle of `buf` at positions `i - 1` down to 1, drawing
/// from a ChaCha8 generator made from `seed` that has served draws with the
/// bounds `drawn`: the shuffled cards, and the bounds drawn by then.
pub open spec fn seeded_shuffle(buf: Seq<Card>, i: nat, seed: u64, drawn: Seq<u64>) -> (Seq<Card>, Seq<u64>) {
    (swaps_from(buf, i, seeded_draws(i, seed, drawn)), drawn + shuffle_bounds(i))
}

/// The thirteen cards of `seat` when `cards` are dealt in order North, East, South, West.
pub open spec fn hand_cards(cards: Seq<Card>, seat: Seat) -> Seq<Card> {
    cards.subrange(13 * seat_num(seat), 13 * seat_num(seat) + 13)
}

/// Dealing `cards` in order meets every seat constraint.
pub open spec fn cards_satisfy(cards: Seq<Card>, seats: Seq<SeatConstraint>) -> bool {
    forall|k: int| 0 <= k < seats.len() ==> seat_ok(hand_cards(cards, #[trigger] seats[k].seat), seats[k])
}

/// The seeded rejection loop from attempt `attempt` on, with the generator
/// having served draws with the bounds `drawn`: the accepted deck and the
/// number of attempts used, or `None` if the budget `max` runs out.
pub open spec fn seeded_attempts(
    seats: Seq<SeatConstraint>,
    seed: u64,
    drawn: Seq<u64>,
    attempt: nat,
    max: nat,
) -> Option<(Seq<Card>, nat)>
    decreases max - attempt,
{
    if attempt >= max {
        None
    } else {
        let (cards, after) = seeded_shuffle(full_deck(), 52, seed, drawn);
        if cards_satisfy(cards, seats) {
            Some((cards, attempt + 1))
        } else {
            seeded_attempts(seats, seed, after, attempt + 1, max)
        }
    }
}

pub open spec fn budget(c: DealConstraints) -> nat {
    match c.max_attempts {
        Some(m) => m as nat,
        None => DEFAULT_MAX_ATTEMPTS as nat,
    }
}

/// With a seed, the result is the outcome of the seeded rejection loop.
pub open spec fn seeded_result(c: DealConstraints, r: Result<DealGeneratorResult, EngineError>) -> bool {
    c.seed matches Some(s) ==> match seeded_attempts(c.seats@, s, Seq::empty(), 0, budget(c)) {
        Some(found) => r matches Ok(res) && all_cards(res.deal) == found.0 && res.iterations == found.1,
        None => r is Err,
    }
}

/// All the cards of a deal, North's first, then East's, South's and West's.
pub open spec fn all_cards(d: Deal) -> Seq<Card> {
    d.hands@[0].cards@ + d.hands@[1].cards@ + d.hands@[2].cards@ + d.hands@[3].cards@
}

/// Four hands of thirteen cards that between them hold each card of the deck once.
pub open spec fn deal_is_full(d: Deal) -> bool {
    &&& d.hands@.len() == 4
    &&& forall|i: int| 0 <= i < 4 ==> (#[trigger] d.hands@[i]).cards@.len() == 13
    &&& all_cards(d).to_multiset() == full_deck().to_multiset()
}

/// The suit lengths of `cards` as a suit-length vector.
pub open spec fn shape_u8(cards: Seq<Card>) -> Seq<u8> {
    Seq::new(4, |k: int| shape_of(cards)[k] as u8)
}

pub open spec fn meets_min(shape: Seq<u8>, lim: SuitLimits) -> bool {
    forall|i: int| 0 <= i < 4 ==> (#[trigger] lim@[i] matches Some(m) ==> shape[i] >= m)
}

pub open spec fn meets_max(shape: Seq<u8>, lim: SuitLimits) -> bool {
    forall|i: int| 0 <= i < 4 ==> (#[trigger] lim@[i] matches Some(m) ==> shape[i] <= m)
}

pub open spec fn meets_any(shape: Seq<u8>, lim: SuitLimits) -> bool {
    exists|i: int| 0 <= i < 4 && (#[trigger] lim@[i] matches Some(m) && shape[i] >= m)
}

/// The shape satisfies the constraint's balance and suit-length parts.
pub open spec fn shape_ok(shape: Seq<u8>, c: SeatConstraint) -> bool {
    &&& (c.balanced matches Some(b) ==> b == balanced_spec(shape))
    &&& (c.min_length matches Some(l) ==> meets_min(shape, l))
    &&& (c.max_length matches Some(l) ==> meets_max(shape, l))
    &&& (c.min_length_any matches Some(l) ==> meets_any(shape, l))
}

/// The hand `cards` satisfies the constraint.
pub open spec fn seat_ok(cards: Seq<Card>, c: SeatConstraint) -> bool {
    &&& (c.min_hcp matches Some(m) ==> hcp_total(cards) >= m)
    &&& (c.max_hcp matches Some(m) ==> hcp_total(cards) <= m)
    &&& shape_ok(shape_u8(cards), c)
}

/// Every seat constraint holds of the hand of its seat.
pub open spec fn satisfies(d: Deal, seats: Seq<SeatConstraint>) -> bool {
    forall|k: int| 0 <= k < seats.len() ==> seat_ok(d.hands@[seat_num(#[trigger] seats[k].seat)].cards@, seats[k])
}

proof fn lemma_swap_multiset(s: Seq<Card>, i: int, j: int)
    requires
        0 <= i < s.len(),
        0 <= j < s.len(),
    ensures
        s.update(i, s[j]).update(j, s[i]).to_multiset() == s.to_multiset(),
{
    broadcast use vstd::seq_lib::to_multiset_update;
    broadcast use vstd::multiset::group_multiset_axioms;

    let s1 = s.update(i, s[j]);
    assert(s1[j] == s[j]);
    assert(s.update(i, s[j]).update(j, s[i]).to_multiset() =~= s.to_multiset());
}

/// Fisher-Yates with the draws given: for each position from the last down
/// to 1, in turn, swap it with the position drawn for it.
pub fn shuffle_with_draws(cards: &Vec<Card>, draws: &Vec<u64>) -> (r: Vec<Card>)
    requires
        draws_fit(cards@.len(), draws@),
    ensures
        r@ == swaps_from(cards@, cards@.len(), draws@),
        r@.len() == cards@.len(),
        r@.to_multiset() == cards@.to_multiset(),
{
    let mut buf: Vec<Card> = Vec::with_capacity(cards.len());
    let mut k: usize = 0;
    while k < cards.len()
        invariant
            k <= cards@.len(),
            buf@ == cards@.take(k as int),
        decreases cards@.len() - k,
    {
        buf.push(cards[k]);
        k = k + 1;
        assert(buf@ =~= cards@.take(k as int));
    }
    assert(buf@ =~= cards@);
    assert(draws@.skip(0) =~= draws@);
    let n = buf.len();
    let mut i: usize = n;
    let mut idx: usize = 0;
    while i > 1
        invariant
            i <= n,
            n == cards@.len(),
            buf@.len() == n,
            n >= 1 ==> idx + i == n,
            n == 0 ==> idx == 0 && i == 0,
            draws_fit(n as nat, draws@),
            buf@.to_multiset() == cards@.to_multiset(),
            swaps_from(cards@, n as nat, draws@) == swaps_from(buf@, i as nat, draws@.skip(idx as int)),
        decreases i,
    {
        i = i - 1;
        let j = draws[idx] as usize;
        let a = buf[i];
        let b = buf[j];
        proof {
            lemma_swap_multiset(buf@, i as int, j as int);
            assert(draws@.skip(idx as int).drop_first() =~= draws@.skip(idx + 1));
        }
        buf.set(i, b);
        buf.set(j, a);
        idx = idx + 1;
    }
    buf
}

/// A random permutation of `cards`: one draw per position from the last down
/// to 1, then those swaps.
fn fisher_yates_shuffle(cards: &Vec<Card>, rng: &mut DealRng) -> (r: Vec<Card>)
    ensures
        r@.len() == cards@.len(),
        r@.to_multiset() == cards@.to_multiset(),
        exists|d: Seq<u64>| draws_fit(cards@.len(), d) && r@ == swaps_from(cards@, cards@.len(), d),
        (*old(rng)) is Seeded ==> {
            &&& *final(rng) is Seeded
            &&& seed_of(*final(rng)) == seed_of(*old(rng))
            &&& (r@, drawn_of(*final(rng))) == seeded_shuffle(
                cards@,
                cards@.len(),
                seed_of(*old(rng)),
                drawn_of(*old(rng)),
            )
        },
        *old(rng) is Entropy ==> *final(rng) is Entropy,
{
    let ghost rng0 = *rng;
    let n = cards.len();
    let mut draws: Vec<u64> = Vec::new();
    let mut i: usize = n;
    while i > 1
        invariant
            i <= n,
            n == cards@.len(),
            n >= 1 ==> draws@.len() + i == n && i >= 1,
            n == 0 ==> draws@.len() == 0 && i == 0,
            forall|k: int| 0 <= k < draws@.len() ==> #[trigger] draws@[k] <= n - 1 - k,
            rng0 is Seeded ==> {
                &&& *rng is Seeded
                &&& seed_of(*rng) == seed_of(rng0)
                &&& draws@ + seeded_draws(i as nat, seed_of(rng0), drawn_of(*rng)) == seeded_draws(
                    n as nat,
                    seed_of(rng0),
                    drawn_of(rng0),
                )
                &&& drawn_of(*rng) + shuffle_bounds(i as nat) == drawn_of(rng0) + shuffle_bounds(n as nat)
            },
            rng0 is Entropy ==> *rng is Entropy,
        decreases i,
    {
        let ghost d = drawn_of(*rng);
        let ghost before = draws@;
        i = i - 1;
        let j = draw(rng, i as u64);
        draws.push(j);
        proof {
            if rng0 is Seeded {
                let seed = seed_of(rng0);
                let rest = seeded_draws(i as nat, seed, d.push(i as u64));
                assert(draws@ + rest =~= before + (seq![j] + rest));
                assert(d.push(i as u64) + shuffle_bounds(i as nat) =~= d + (seq![i as u64]
                    + shuffle_bounds(i as nat)));
            }
        }
    }
    proof {
        assert(draws@ + seeded_draws(i as nat, seed_of(rng0), drawn_of(*rng)) =~= draws@);
        assert(drawn_of(*rng) + shuffle_bounds(i as nat) =~= drawn_of(*rng));
    }
    assert(draws_fit(n as nat, draws@));
    let r = shuffle_with_draws(cards, &draws);
    assert(draws_fit(cards@.len(), draws@) && r@ == swaps_from(cards@, cards@.len(), draws@));
    r
}

proof fn lemma_cards_satisfy(d: Deal, cards: Seq<Card>, seats: Seq<SeatConstraint>)
    requires
        d.hands@.len() == 4,
        forall|i: int| 0 <= i < 4 ==> (#[trigger] d.hands@[i]).cards@ == cards.subrange(13 * i, 13 * i + 13),
    ensures
        satisfies(d, seats) == cards_satisfy(cards, seats),
{
    assert forall|k: int| 0 <= k < seats.len() implies d.hands@[seat_num(#[trigger] seats[k].seat)].cards@
        == hand_cards(cards, seats[k].seat) by {
        let n = seat_num(seats[k].seat);
        assert(d.hands@[n].cards@ == cards.subrange(13 * n, 13 * n + 13));
    }
}

fn copy_range(cards: &Vec<Card>, start: usize, end: usize) -> (r: Vec<Card>)
    requires
        start <= end <= cards@.len(),
    ensures
        r@ == cards@.subrange(start as int, end as int),
{
    let mut out: Vec<Card> = Vec::with_capacity(end - start);
    let mut k: usize = start;
    while k < end
        invariant
            start <= k <= end,
            end <= cards@.len(),
            out@ == cards@.subrange(start as int, k as int),
        decreases end - k,
    {
        out.push(cards[k]);
        k = k + 1;
        assert(out@ =~= cards@.subrange(start as int, k as int));
    }
    out
}

/// Deal 52 cards in order: thirteen each to North, East, South and West.
fn deal_from_shuffled(cards: &Vec<Card>, dealer: Seat, vulnerability: Vulnerability) -> (r: Deal)
    requires
        cards@.len() == 52,
    ensures
        r.hands@.len() == 4,
        forall|i: int| 0 <= i < 4 ==> (#[trigger] r.hands@[i]).cards@ == cards@.subrange(13 * i, 13 * i + 13),
        all_cards(r) == cards@,
        r.dealer == dealer,
        r.vulnerability == vulnerability,
{
    let mut hands: Vec<Hand> = Vec::with_capacity(4);
    hands.push(Hand { cards: copy_range(cards, 0, 13) });
    hands.push(Hand { cards: copy_range(cards, 13, 26) });
    hands.push(Hand { cards: copy_range(cards, 26, 39) });
    hands.push(Hand { cards: copy_range(cards, 39, 52) });
    let r = Deal { hands, dealer, vulnerability };
    assert(all_cards(r) =~= cards@);
    r
}

fn check_limits_min(shape: &SuitLength, lim: &SuitLimits) -> (r: bool)
    ensures
        r == meets_min(shape@, *lim),
{
    let mut i: usize = 0;
    while i < 4
        invariant
            i <= 4,
            forall|k: int| 0 <= k < i ==> (#[trigger] lim@[k] matches Some(m) ==> shape@[k] >= m),
        decreases 4 - i,
    {
        if let Some(m) = lim[i] {
            if shape[i] < m {
                return false;
            }
        }
        i = i + 1;
    }
    true
}

fn check_limits_max(shape: &SuitLength, lim: &SuitLimits) -> (r: bool)
    ensures
        r == meets_max(shape@, *lim),
{
    let mut i: usize = 0;
    while i < 4
        invariant
            i <= 4,
            forall|k: int| 0 <= k < i ==> (#[trigger] lim@[k] matches Some(m) ==> shape@[k] <= m),
        decreases 4 - i,
    {
        if let Some(m) = lim[i] {
            if shape[i] > m {
                return false;
            }
        }
        i = i + 1;
    }
    true
}

fn check_limits_any(shape: &SuitLength, lim: &SuitLimits) -> (r: bool)
    ensures
        r == meets_any(shape@, *lim),
{
    let mut i: usize = 0;
    while i < 4
        invariant
            i <= 4,
            forall|k: int| 0 <= k < i ==> !(#[trigger] lim@[k] matches Some(m) && shape@[k] >= m),
        decreases 4 - i,
    {
        if let Some(m) = lim[i] {
            if shape[i] >= m {
                assert(lim@[i as int] matches Some(m) && shape@[i as int] >= m);
                return true;
            }
        }
        i = i + 1;
    }
    false
}

/// Whether a suit-length vector meets the balance and length parts of a constraint.
fn check_shape_constraint(shape: &SuitLength, constraint: &SeatConstraint) -> (r: bool)
    ensures
        r == shape_ok(shape@, *constraint),
{
    if let Some(balanced) = constraint.balanced {
        if balanced != is_balanced(shape) {
            return false;
        }
    }
    if let Some(min_length) = constraint.min_length {
        if !check_limits_min(shape, &min_length) {
            return false;
        }
    }
    if let Some(max_length) = constraint.max_length {
        if !check_limits_max(shape, &max_length) {
            return false;
        }
    }
    if let Some(min_length_any) = constraint.min_length_any {
        if !check_limits_any(shape, &min_length_any) {
            return false;
        }
    }
    true
}

proof fn lemma_shape_u8(shape: SuitLength, cards: Seq<Card>)
    requires
        forall|k: int| 0 <= k < 4 ==> #[trigger] shape@[k] == shape_of(cards)[k],
    ensures
        shape@ == shape_u8(cards),
{
    assert(shape@ =~= shape_u8(cards));
}

/// Whether one hand meets one seat constraint.
fn check_seat_constraint(hand: &Hand, constraint: &SeatConstraint) -> (r: bool)
    requires
        hand.cards@.len() <= 255,
    ensures
        r == seat_ok(hand.cards@, *constraint),
{
    let needs_hcp = constraint.min_hcp.is_some() || constraint.max_hcp.is_some();
    let needs_shape = constraint.balanced.is_some() || constraint.min_length.is_some()
        || constraint.max_length.is_some() || constraint.min_length_any.is_some();
    if needs_hcp && needs_shape {
        let (hcp, shape) = calculate_hcp_and_shape(hand);
        proof {
            lemma_shape_u8(shape, hand.cards@);
        }
        if let Some(min) = constraint.min_hcp {
            if hcp < min {
                return false;
            }
        }
        if let Some(max) = constraint.max_hcp {
            if hcp > max {
                return false;
            }
        }
        if !check_shape_constraint(&shape, constraint) {
            return false;
        }
    } else if needs_hcp {
        let hcp = calculate_hcp(hand);
        if let Some(min) = constraint.min_hcp {
            if hcp < min {
                return false;
            }
        }
        if let Some(max) = constraint.max_hcp {
            if hcp > max {
                return false;
            }
        }
    } else if needs_shape {
        let shape = get_suit_length(hand);
        proof {
            lemma_shape_u8(shape, hand.cards@);
        }
        if !check_shape_constraint(&shape, constraint) {
            return false;
        }
    }
    true
}

/// Whether every seat constraint holds of its seat's hand.
pub fn check_constraints(deal: &Deal, constraints: &DealConstraints) -> (r: bool)
    requires
        deal.hands@.len() == 4,
        forall|i: int| 0 <= i < 4 ==> (#[trigger] deal.hands@[i]).cards@.len() <= 255,
    ensures
        r == satisfies(*deal, constraints.seats@),
{
    let seats = &constraints.seats;
    let mut k: usize = 0;
    while k < seats.len()
        invariant
            seats@ == constraints.seats@,
            k <= seats@.len(),
            deal.hands@.len() == 4,
            forall|i: int| 0 <= i < 4 ==> (#[trigger] deal.hands@[i]).cards@.len() <= 255,
            forall|j: int| 0 <= j < k ==> seat_ok(deal.hands@[seat_num(#[trigger] seats@[j].seat)].cards@, seats@[j]),
        decreases seats@.len() - k,
    {
        let sc = seats[k];
        let idx = seat_index(sc.seat);
        if !check_seat_constraint(&deal.hands[idx], &sc) {
            assert(!seat_ok(deal.hands@[seat_num(seats@[k as int].seat)].cards@, seats@[k as int]));
            return false;
        }
        k = k + 1;
    }
    true
}

/// A random deal meeting the constraints, found by drawing shuffled decks
/// until one passes or the attempt budget runs out.
pub fn generate_deal(constraints: &DealConstraints) -> (r: Result<DealGeneratorResult, EngineError>)
    ensures
        r matches Ok(res) ==> {
            &&& deal_is_full(res.deal)
            &&& satisfies(res.deal, constraints.seats@)
            &&& res.deal.dealer == match constraints.dealer {
                Some(d) => d,
                None => Seat::North,
            }
            &&& res.deal.vulnerability == match constraints.vulnerability {
                Some(v) => v,
                None => Vulnerability::Neither,
            }
            &&& 1 <= res.iterations <= match constraints.max_attempts {
                Some(m) => m,
                None => DEFAULT_MAX_ATTEMPTS,
            }
            &&& res.relaxation_steps == 0
        },
        r matches Err(e) ==> e == EngineError::MaxAttemptsExceeded(
            match constraints.max_attempts {
                Some(m) => m,
                None => DEFAULT_MAX_ATTEMPTS,
            },
        ),
        constraints.seats@.len() == 0 && match constraints.max_attempts {
            Some(m) => m >= 1,
            None => true,
        } ==> (r matches Ok(res) && res.iterations == 1),
        seeded_result(*constraints, r),
{
    let dealer = match constraints.dealer {
        Some(d) => d,
        None => Seat::North,
    };
    let vulnerability = match constraints.vulnerability {
        Some(v) => v,
        None => Vulnerability::Neither,
    };
    let max_attempts = match constraints.max_attempts {
        Some(m) => m,
        None => DEFAULT_MAX_ATTEMPTS,
    };
    let deck = create_deck();
    let mut rng = match constraints.seed {
        Some(seed) => DealRng::Seeded(seeded_rng(seed)),
        None => DealRng::Entropy(entropy_rng()),
    };
    let mut attempt: u32 = 0;
    while attempt < max_attempts
        invariant
            deck@ == full_deck(),
            attempt <= max_attempts,
            max_attempts == match constraints.max_attempts {
                Some(m) => m,
                None => DEFAULT_MAX_ATTEMPTS,
            },
            constraints.seats@.len() == 0 ==> attempt == 0,
            dealer == match constraints.dealer {
                Some(d) => d,
                None => Seat::North,
            },
            vulnerability == match constraints.vulnerability {
                Some(v) => v,
                None => Vulnerability::Neither,
            },
            constraints.seed is None ==> rng is Entropy,
            constraints.seed matches Some(s) ==> {
                &&& rng is Seeded
                &&& seed_of(rng) == s
                &&& seeded_attempts(constraints.seats@, s, Seq::empty(), 0, budget(*constraints))
                    == seeded_attempts(constraints.seats@, s, drawn_of(rng), attempt as nat, budget(*constraints))
            },
        decreases max_attempts - attempt,
    {
        attempt = attempt + 1;
        let shuffled = fisher_yates_shuffle(&deck, &mut rng);
        let deal = deal_from_shuffled(&shuffled, dealer, vulnerability);
        assert(deal_is_full(deal));
        proof {
            lemma_cards_satisfy(deal, shuffled@, constraints.seats@);
        }
        if check_constraints(&deal, constraints) {
            return Ok(DealGeneratorResult { deal, iterations: attempt, relaxation_steps: 0 });
        }
    }
    Err(EngineError::MaxAttemptsExceeded(max_attempts))
}

proof fn lemma_hcp_concat(a: Seq<Card>, b: Seq<Card>)
    ensures
        hcp_total(a + b) == hcp_total(a) + hcp_total(b),
    decreases b.len(),
{
    if b.len() == 0 {
        assert(a + b =~= a);
    } else {
        assert((a + b).drop_last() =~= a + b.drop_last());
        lemma_hcp_concat(a, b.drop_last());
    }
}

proof fn lemma_hcp_remove(s: Seq<Card>, j: int)
    requires
        0 <= j < s.len(),
    ensures
        hcp_total(s) == hcp_total(s.remove(j)) + rank_hcp(s[j].rank),
{
    let pre = s.take(j);
    let post = s.skip(j + 1);
    assert(s =~= pre.push(s[j]) + post);
    assert(s.remove(j) =~= pre + post);
    lemma_hcp_concat(pre.push(s[j]), post);
    assert(pre.push(s[j]).drop_last() =~= pre);
    assert(hcp_total(pre.push(s[j])) == hcp_total(pre) + rank_hcp(s[j].rank));
    lemma_hcp_concat(pre, post);
}

/// Reordering cards does not change their point total.
proof fn lemma_hcp_permutation(s1: Seq<Card>, s2: Seq<Card>)
    requires
        s1.to_multiset() == s2.to_multiset(),
    ensures
        hcp_total(s1) == hcp_total(s2),
    decreases s1.len(),
{
    broadcast use vstd::multiset::group_multiset_axioms;

    assert(s1.to_multiset().len() == s1.len());
    assert(s2.to_multiset().len() == s2.len());
    if s1.len() == 0 {
        assert(s2.len() == 0);
    } else {
        let x = s1.last();
        let s1p = s1.drop_last();
        assert(s1 =~= s1p.push(x));
        assert(s2.to_multiset().count(x) > 0);
        assert(s2.contains(x));
        let j = choose|j: int| 0 <= j < s2.len() && s2[j] == x;
        let s2p = s2.remove(j);
        assert(s1p.to_multiset() =~= s2p.to_multiset());
        lemma_hcp_permutation(s1p, s2p);
        lemma_hcp_remove(s2, j);
    }
}

/// High card points of the rank at position `m` of a suit, two (0) to ace (12).
spec fn points_at(m: int) -> nat {
    if m == 9 {
        1
    } else if m == 10 {
        2
    } else if m == 11 {
        3
    } else if m == 12 {
        4
    } else {
        0
    }
}

spec fn deck_prefix_points(n: nat) -> nat
    decreases n,
{
    if n == 0 {
        0
    } else {
        deck_prefix_points((n - 1) as nat) + points_at((n - 1) % 13)
    }
}

proof fn lemma_deck_prefix(n: nat)
    requires
        n <= 52,
    ensures
        hcp_total(full_deck().take(n as int)) == deck_prefix_points(n),
    decreases n,
{
    if n > 0 {
        assert(full_deck().take(n as int).drop_last() =~= full_deck().take(n - 1));
        let m = (n - 1) % 13;
        assert(rank_hcp(rank_at(m)) == points_at(m));
        lemma_deck_prefix((n - 1) as nat);
    }
}

proof fn lemma_deck_points_total()
    ensures
        deck_prefix_points(52) == 40,
{
    assert(deck_prefix_points(13) == 10) by {
        reveal_with_fuel(deck_prefix_points, 14);
    }
    assert(deck_prefix_points(26) == 20) by {
        reveal_with_fuel(deck_prefix_points, 14);
    }
    assert(deck_prefix_points(39) == 30) by {
        reveal_with_fuel(deck_prefix_points, 14);
    }
    assert(deck_prefix_points(52) == 40) by {
        reveal_with_fuel(deck_prefix_points, 14);
    }
}

/// The four hands of a full deal hold 40 high card points between them.
pub proof fn lemma_deal_hcp_is_forty(d: Deal)
    requires
        deal_is_full(d),
    ensures
        hcp_total(d.hands@[0].cards@) + hcp_total(d.hands@[1].cards@) + hcp_total(d.hands@[2].cards@)
            + hcp_total(d.hands@[3].cards@) == 40,
{
    let h0 = d.hands@[0].cards@;
    let h1 = d.hands@[1].cards@;
    let h2 = d.hands@[2].cards@;
    let h3 = d.hands@[3].cards@;
    lemma_hcp_concat(h0, h1);
    lemma_hcp_concat(h0 + h1, h2);
    lemma_hcp_concat(h0 + h1 + h2, h3);
    lemma_hcp_permutation(all_cards(d), full_deck());
    lemma_deck_prefix(52);
    assert(full_deck().take(52) =~= full_deck());
    lemma_deck_points_total();
}

/// The four hands of a full deal hold the 52 cards of the deck, each once.
pub proof fn lemma_deal_partitions_deck(d: Deal)
    requires
        deal_is_full(d),
    ensures
        all_cards(d).len() == 52,
        all_cards(d).no_duplicates(),
        forall|c: Card| #[trigger] all_cards(d).contains(c),
{
    lemma_full_deck_complete();
    full_deck().lemma_multiset_has_no_duplicates();
    assert(all_cards(d).len() == full_deck().len());
    assert forall|c: Card| #[trigger] all_cards(d).contains(c) by {
        assert(full_deck().contains(c));
        assert(full_deck().to_multiset().count(c) > 0);
    }
    assert forall|x: Card| all_cards(d).to_multiset().contains(x) implies all_cards(d).to_multiset().count(
        x,
    ) == 1 by {
        assert(full_deck().to_multiset().contains(x));
    }
    all_cards(d).lemma_multiset_has_no_duplicates_conv();
}

proof fn lemma_hands_of_all_cards(d: Deal)
    requires
        deal_is_full(d),
    ensures
        forall|i: int| 0 <= i < 4 ==> (#[trigger] d.hands@[i]).cards@ == all_cards(d).subrange(13 * i, 13 * i + 13),
{
    let h0 = d.hands@[0].cards@;
    let h1 = d.hands@[1].cards@;
    let h2 = d.hands@[2].cards@;
    let h3 = d.hands@[3].cards@;
    assert(h0 =~= all_cards(d).subrange(0, 13));
    assert(h1 =~= all_cards(d).subrange(13, 26));
    assert(h2 =~= all_cards(d).subrange(26, 39));
    assert(h3 =~= all_cards(d).subrange(39, 52));
}

/// Both generations failed, or both succeeded after the same number of
/// attempts with the same cards, in the same order, in every seat.
pub open spec fn same_outcome(
    r1: Result<DealGeneratorResult, EngineError>,
    r2: Result<DealGeneratorResult, EngineError>,
) -> bool {
    match (r1, r2) {
        (Ok(a), Ok(b)) => {
            &&& a.iterations == b.iterations
            &&& forall|i: int| 0 <= i < 4 ==> (#[trigger] a.deal.hands@[i]).cards@ == b.deal.hands@[i].cards@
        },
        (Err(_), Err(_)) => true,
        _ => false,
    }
}

/// Generating twice from the same seed and constraints gives the same
/// outcome: both fail, or both succeed after the same number of attempts
/// and deal every seat the same cards in the same order.
pub proof fn lemma_seeded_generation_reproducible(
    c: DealConstraints,
    r1: Result<DealGeneratorResult, EngineError>,
    r2: Result<DealGeneratorResult, EngineError>,
)
    requires
        c.seed is Some,
        seeded_result(c, r1),
        seeded_result(c, r2),
        r1 matches Ok(a) ==> deal_is_full(a.deal),
        r2 matches Ok(b) ==> deal_is_full(b.deal),
    ensures
        same_outcome(r1, r2),
{
    match (r1, r2) {
        (Ok(a), Ok(b)) => {
            lemma_hands_of_all_cards(a.deal);
            lemma_hands_of_all_cards(b.deal);
        },
        _ => {},
    }
}

} // verus!
