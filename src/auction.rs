use vstd::prelude::*;

use std::cmp::Ordering;

use crate::constants::{partner_seat, partner_spec};
use crate::error::{call_text, describe_call, EngineError};
use crate::types::{Auction, AuctionEntry, BidSuit, Call, Contract, Seat};

verus! {

/// Rank of a strain among bids: clubs 1 up to no-trump 5.
pub open spec fn strain_num(strain: BidSuit) -> int {
    match strain {
        BidSuit::Clubs => 1,
        BidSuit::Diamonds => 2,
        BidSuit::Hearts => 3,
        BidSuit::Spades => 4,
        BidSuit::NoTrump => 5,
    }
}

/// Bid `(l1, s1)` is lower than bid `(l2, s2)`: by level, then by strain.
pub open spec fn bid_less(l1: int, s1: BidSuit, l2: int, s2: BidSuit) -> bool {
    l1 < l2 || (l1 == l2 && strain_num(s1) < strain_num(s2))
}

pub open spec fn same_side_spec(a: Seat, b: Seat) -> bool {
    a == b || partner_spec(a) == b
}

/// Index of the last bid in `s`, or -1 if there is none.
pub open spec fn last_bid_pos(s: Seq<AuctionEntry>) -> int
    decreases s.len(),
{
    if s.len() == 0 {
        -1
    } else if s.last().call is Bid {
        s.len() - 1
    } else {
        last_bid_pos(s.drop_last())
    }
}

/// Index of the last call other than a pass in `s`, or -1 if there is none.
pub open spec fn last_call_pos(s: Seq<AuctionEntry>) -> int
    decreases s.len(),
{
    if s.len() == 0 {
        -1
    } else if !(s.last().call is Pass) {
        s.len() - 1
    } else {
        last_call_pos(s.drop_last())
    }
}

/// Whether `seat` may make `call` after the entries `s` of an auction.
pub open spec fn call_is_legal(s: Seq<AuctionEntry>, complete: bool, call: Call, seat: Seat) -> bool {
    !complete && match call {
        Call::Pass => true,
        Call::Bid { level, strain } => {
            let k = last_bid_pos(s);
            k < 0 || (s[k].call matches Call::Bid { level: pl, strain: ps } && bid_less(
                pl as int,
                ps,
                level as int,
                strain,
            ))
        },
        Call::Double => {
            let k = last_call_pos(s);
            k >= 0 && s[k].call is Bid && !same_side_spec(s[k].seat, seat)
        },
        Call::Redouble => {
            let k = last_call_pos(s);
            k >= 0 && s[k].call is Double && !same_side_spec(s[k].seat, seat)
        },
    }
}

/// The auction has ended: its last three calls are passes, and either it is
/// exactly four passes or some call before those three is not a pass.
pub open spec fn auction_ended(s: Seq<AuctionEntry>) -> bool {
    &&& s.len() >= 4
    &&& s[s.len() - 1].call is Pass
    &&& s[s.len() - 2].call is Pass
    &&& s[s.len() - 3].call is Pass
    &&& {
        ||| (s.len() == 4 && s[0].call is Pass)
        ||| exists|k: int| 0 <= k < s.len() - 3 && !(#[trigger] s[k].call is Pass)
    }
}

/// Entry `e` is a bid of `strain` by `side` or its partner.
pub open spec fn names_strain(e: AuctionEntry, strain: BidSuit, side: Seat) -> bool {
    e.call matches Call::Bid { strain: st, .. } && st == strain && same_side_spec(e.seat, side)
}

pub open spec fn last_bid_strain(s: Seq<AuctionEntry>) -> BidSuit {
    s[last_bid_pos(s)].call->strain
}

/// `d` is the declarer of `s`: the first player of the side that made the
/// last bid to have bid that bid's strain.
pub open spec fn is_declarer(s: Seq<AuctionEntry>, d: Seat) -> bool {
    let side = s[last_bid_pos(s)].seat;
    exists|k: int|
        #![trigger s[k]]
        0 <= k < s.len() && names_strain(s[k], last_bid_strain(s), side) && d == s[k].seat && forall|
            j: int,
        |
            0 <= j < k ==> !names_strain(#[trigger] s[j], last_bid_strain(s), side)
}

/// Every call in the order the legal calls are listed: pass, the 35 bids
/// from one club up to seven no-trump, double, redouble.
pub open spec fn candidate_calls() -> Seq<Call> {
    seq![Call::Pass] + all_bids() + seq![Call::Double, Call::Redouble]
}

pub open spec fn strain_at(i: int) -> BidSuit {
    if i == 0 {
        BidSuit::Clubs
    } else if i == 1 {
        BidSuit::Diamonds
    } else if i == 2 {
        BidSuit::Hearts
    } else if i == 3 {
        BidSuit::Spades
    } else {
        BidSuit::NoTrump
    }
}

/// The 35 bids in ascending order.
pub open spec fn all_bids() -> Seq<Call> {
    Seq::new(35, |i: int| Call::Bid { level: (i / 5 + 1) as u8, strain: strain_at(i % 5) })
}

/// The calls of `cands` that `seat` may make, in their order.
pub open spec fn legal_among(
    cands: Seq<Call>,
    s: Seq<AuctionEntry>,
    complete: bool,
    seat: Seat,
) -> Seq<Call>
    decreases cands.len(),
{
    if cands.len() == 0 {
        seq![]
    } else {
        let rest = legal_among(cands.drop_last(), s, complete, seat);
        if call_is_legal(s, complete, cands.last(), seat) {
            rest.push(cands.last())
        } else {
            rest
        }
    }
}

fn strain_rank(strain: BidSuit) -> (r: u8)
    ensures
        r == strain_num(strain),
{
    match strain {
        BidSuit::Clubs => 1,
        BidSuit::Diamonds => 2,
        BidSuit::Hearts => 3,
        BidSuit::Spades => 4,
        BidSuit::NoTrump => 5,
    }
}

/// Compare two bids: by level, then by strain.
pub fn compare_bids(a_level: u8, a_strain: BidSuit, b_level: u8, b_strain: BidSuit) -> (r: Ordering)
    ensures
        (r == Ordering::Less) == bid_less(a_level as int, a_strain, b_level as int, b_strain),
        (r == Ordering::Greater) == bid_less(b_level as int, b_strain, a_level as int, a_strain),
        (r == Ordering::Equal) == (a_level == b_level && a_strain == b_strain),
{
    if a_level < b_level {
        Ordering::Less
    } else if a_level > b_level {
        Ordering::Greater
    } else {
        let ra = strain_rank(a_strain);
        let rb = strain_rank(b_strain);
        if ra < rb {
            Ordering::Less
        } else if ra > rb {
            Ordering::Greater
        } else {
            Ordering::Equal
        }
    }
}

fn same_side(a: Seat, b: Seat) -> (r: bool)
    ensures
        r == same_side_spec(a, b),
{
    a == b || partner_seat(a) == b
}

/// The last entry that is not a pass.
fn last_non_pass(auction: &Auction) -> (r: Option<AuctionEntry>)
    ensures
        last_call_pos(auction.entries@) < 0 ==> r is None,
        last_call_pos(auction.entries@) >= 0 ==> r == Some(
            auction.entries@[last_call_pos(auction.entries@)],
        ),
        -1 <= last_call_pos(auction.entries@) < auction.entries@.len(),
{
    let ghost s = auction.entries@;
    let mut i: usize = auction.entries.len();
    assert(s.take(i as int) =~= s);
    while i > 0
        invariant
            i <= s.len(),
            s == auction.entries@,
            last_call_pos(s) == last_call_pos(s.take(i as int)),
        decreases i,
    {
        assert(s.take(i as int).drop_last() =~= s.take(i - 1));
        let e = auction.entries[i - 1];
        if !matches!(e.call, Call::Pass) {
            return Some(e);
        }
        i = i - 1;
    }
    None
}

/// The last bid.
fn last_bid(auction: &Auction) -> (r: Option<AuctionEntry>)
    ensures
        last_bid_pos(auction.entries@) < 0 ==> r is None,
        last_bid_pos(auction.entries@) >= 0 ==> r == Some(
            auction.entries@[last_bid_pos(auction.entries@)],
        ),
        -1 <= last_bid_pos(auction.entries@) < auction.entries@.len(),
{
    let ghost s = auction.entries@;
    let mut i: usize = auction.entries.len();
    assert(s.take(i as int) =~= s);
    while i > 0
        invariant
            i <= s.len(),
            s == auction.entries@,
            last_bid_pos(s) == last_bid_pos(s.take(i as int)),
        decreases i,
    {
        assert(s.take(i as int).drop_last() =~= s.take(i - 1));
        let e = auction.entries[i - 1];
        if matches!(e.call, Call::Bid { .. }) {
            return Some(e);
        }
        i = i - 1;
    }
    None
}

/// Whether `seat` may make `call` in the auction as it stands.
pub fn is_legal_call(auction: &Auction, call: &Call, seat: Seat) -> (r: bool)
    ensures
        r == call_is_legal(auction.entries@, auction.is_complete, *call, seat),
{
    if auction.is_complete {
        return false;
    }
    match call {
        Call::Pass => true,
        Call::Bid { level, strain } => {
            match last_bid(auction) {
                None => true,
                Some(entry) => {
                    match entry.call {
                        Call::Bid { level: prev_level, strain: prev_strain } => {
                            matches!(
                                compare_bids(*level, *strain, prev_level, prev_strain),
                                Ordering::Greater
                            )
                        },
                        _ => false,
                    }
                },
            }
        },
        Call::Double => {
            match last_non_pass(auction) {
                None => false,
                Some(entry) => matches!(entry.call, Call::Bid { .. }) && !same_side(entry.seat, seat),
            }
        },
        Call::Redouble => {
            match last_non_pass(auction) {
                None => false,
                Some(entry) => matches!(entry.call, Call::Double) && !same_side(entry.seat, seat),
            }
        },
    }
}

/// Whether the auction has ended (four passes, or three passes after a call).
pub fn is_auction_complete(auction: &Auction) -> (r: bool)
    ensures
        r == auction_ended(auction.entries@),
{
    let entries = &auction.entries;
    let len = entries.len();
    if len < 4 {
        return false;
    }
    let last_three_passes = matches!(entries[len - 1].call, Call::Pass) && matches!(
        entries[len - 2].call,
        Call::Pass
    ) && matches!(entries[len - 3].call, Call::Pass);
    if !last_three_passes {
        return false;
    }
    if len == 4 && matches!(entries[0].call, Call::Pass) {
        return true;
    }
    let mut k: usize = 0;
    while k < len - 3
        invariant
            entries@ == auction.entries@,
            len == entries@.len(),
            len >= 4,
            k <= len - 3,
            entries@[len - 1].call is Pass,
            entries@[len - 2].call is Pass,
            entries@[len - 3].call is Pass,
            forall|j: int| 0 <= j < k ==> (#[trigger] entries@[j].call is Pass),
        decreases len - 3 - k,
    {
        if !matches!(entries[k].call, Call::Pass) {
            assert(!(entries@[k as int].call is Pass));
            return true;
        }
        k = k + 1;
    }
    false
}

/// What appending `e` to `a` gives: an error if the auction has ended or the
/// call is illegal, otherwise a new auction holding `a`'s entries and then `e`.
pub open spec fn appended(a: Auction, e: AuctionEntry, r: Result<Auction, EngineError>) -> bool {
    &&& a.is_complete ==> r == Err::<Auction, EngineError>(EngineError::AuctionComplete)
    &&& !a.is_complete && !call_is_legal(a.entries@, false, e.call, e.seat) ==> (r matches Err(
        EngineError::IllegalCall(text),
    ) && text@ == call_text(e.call))
    &&& call_is_legal(a.entries@, a.is_complete, e.call, e.seat) ==> (r matches Ok(next)
        && next.entries@ == a.entries@.push(e) && next.is_complete == auction_ended(next.entries@))
}

/// A new auction with `entry` appended, or the reason it cannot be made.
pub fn add_call(auction: &Auction, entry: AuctionEntry) -> (r: Result<Auction, EngineError>)
    requires
        auction.entries@.len() < usize::MAX,
    ensures
        auction.is_complete ==> r == Err::<Auction, EngineError>(EngineError::AuctionComplete),
        !auction.is_complete && !call_is_legal(
            auction.entries@,
            false,
            entry.call,
            entry.seat,
        ) ==> (r matches Err(EngineError::IllegalCall(text)) && text@ == call_text(entry.call)),
        call_is_legal(auction.entries@, auction.is_complete, entry.call, entry.seat) ==> (r matches Ok(
            next,
        ) && next.entries@ == auction.entries@.push(entry) && next.is_complete == auction_ended(
            next.entries@,
        )),
        appended(*auction, entry, r),
{
    if auction.is_complete {
        return Err(EngineError::AuctionComplete);
    }
    if !is_legal_call(auction, &entry.call, entry.seat) {
        return Err(EngineError::IllegalCall(describe_call(&entry.call)));
    }
    let mut new_entries: Vec<AuctionEntry> = Vec::with_capacity(auction.entries.len() + 1);
    let mut i: usize = 0;
    while i < auction.entries.len()
        invariant
            i <= auction.entries@.len(),
            new_entries@ == auction.entries@.take(i as int),
        decreases auction.entries@.len() - i,
    {
        new_entries.push(auction.entries[i]);
        i = i + 1;
        assert(new_entries@ =~= auction.entries@.take(i as int));
    }
    assert(new_entries@ =~= auction.entries@);
    new_entries.push(entry);
    let mut result = Auction { entries: new_entries, is_complete: false };
    result.is_complete = is_auction_complete(&result);
    Ok(result)
}

proof fn lemma_last_bid_names(s: Seq<AuctionEntry>)
    requires
        last_bid_pos(s) >= 0,
    ensures
        0 <= last_bid_pos(s) < s.len(),
        s[last_bid_pos(s)].call is Bid,
        names_strain(s[last_bid_pos(s)], last_bid_strain(s), s[last_bid_pos(s)].seat),
    decreases s.len(),
{
    if !(s.last().call is Bid) {
        lemma_last_bid_names(s.drop_last());
    }
}

/// The declarer: the first player of the side that made the last bid to bid its strain.
pub fn get_declarer(auction: &Auction) -> (r: Result<Seat, EngineError>)
    ensures
        last_bid_pos(auction.entries@) < 0 ==> r == Err::<Seat, EngineError>(
            EngineError::NoBidsInAuction,
        ),
        last_bid_pos(auction.entries@) >= 0 ==> (r matches Ok(d) && is_declarer(
            auction.entries@,
            d,
        )),
{
    let ghost s = auction.entries@;
    let last = match last_bid(auction) {
        None => return Err(EngineError::NoBidsInAuction),
        Some(e) => e,
    };
    proof {
        lemma_last_bid_names(s);
    }
    let final_strain = match last.call {
        Call::Bid { strain, .. } => strain,
        _ => return Err(EngineError::NoBidsInAuction),
    };
    let declaring_side = last.seat;
    let mut i: usize = 0;
    while i < auction.entries.len()
        invariant
            s == auction.entries@,
            0 <= last_bid_pos(s) < s.len(),
            last == s[last_bid_pos(s)],
            final_strain == last_bid_strain(s),
            declaring_side == s[last_bid_pos(s)].seat,
            names_strain(s[last_bid_pos(s)], final_strain, declaring_side),
            i <= last_bid_pos(s),
            forall|j: int| 0 <= j < i ==> !names_strain(#[trigger] s[j], final_strain, declaring_side),
        decreases s.len() - i,
    {
        let entry = auction.entries[i];
        if let Call::Bid { strain, .. } = entry.call {
            if strain == final_strain && same_side(entry.seat, declaring_side) {
                assert(names_strain(s[i as int], last_bid_strain(s), declaring_side));
                return Ok(entry.seat);
            }
        }
        assert(!names_strain(s[i as int], final_strain, declaring_side));
        i = i + 1;
    }
    Ok(declaring_side)
}

/// The contract the auction reached, or `None` if nobody bid.
pub fn get_contract(auction: &Auction) -> (r: Result<Option<Contract>, EngineError>)
    ensures
        last_bid_pos(auction.entries@) < 0 ==> r == Ok::<Option<Contract>, EngineError>(None),
        last_bid_pos(auction.entries@) >= 0 ==> (r matches Ok(Some(c)) && {
            let s = auction.entries@;
            &&& s[last_bid_pos(s)].call == (Call::Bid { level: c.level, strain: c.strain })
            &&& c.doubled == (last_call_pos(s) >= 0 && s[last_call_pos(s)].call is Double)
            &&& c.redoubled == (last_call_pos(s) >= 0 && s[last_call_pos(s)].call is Redouble)
            &&& is_declarer(s, c.declarer)
        }),
{
    let last = match last_bid(auction) {
        None => return Ok(None),
        Some(entry) => entry,
    };
    proof {
        lemma_last_bid_names(auction.entries@);
    }
    let (level, strain) = match last.call {
        Call::Bid { level, strain } => (level, strain),
        _ => return Ok(None),
    };
    let mut doubled = false;
    let mut redoubled = false;
    if let Some(entry) = last_non_pass(auction) {
        match entry.call {
            Call::Double => doubled = true,
            Call::Redouble => redoubled = true,
            _ => {},
        }
    }
    let declarer = match get_declarer(auction) {
        Ok(d) => d,
        Err(e) => return Err(e),
    };
    Ok(Some(Contract { level, strain, doubled, redoubled, declarer }))
}

fn strain_from_index(i: usize) -> (r: BidSuit)
    requires
        i < 5,
    ensures
        r == strain_at(i as int),
{
    if i == 0 {
        BidSuit::Clubs
    } else if i == 1 {
        BidSuit::Diamonds
    } else if i == 2 {
        BidSuit::Hearts
    } else if i == 3 {
        BidSuit::Spades
    } else {
        BidSuit::NoTrump
    }
}

/// Pass, the 35 bids in ascending order, double and redouble.
fn candidates() -> (r: Vec<Call>)
    ensures
        r@ == candidate_calls(),
{
    let mut v: Vec<Call> = Vec::with_capacity(38);
    v.push(Call::Pass);
    let mut i: usize = 0;
    while i < 35
        invariant
            i <= 35,
            v@ == seq![Call::Pass] + all_bids().take(i as int),
        decreases 35 - i,
    {
        let level: u8 = (i / 5 + 1) as u8;
        v.push(Call::Bid { level, strain: strain_from_index(i % 5) });
        i = i + 1;
        assert(v@ =~= seq![Call::Pass] + all_bids().take(i as int));
    }
    assert(all_bids().take(35) =~= all_bids());
    v.push(Call::Double);
    v.push(Call::Redouble);
    assert(v@ =~= candidate_calls());
    v
}

/// Every call `seat` may make now, in the order pass, bids upward, double, redouble.
pub fn get_legal_calls(auction: &Auction, seat: Seat) -> (r: Vec<Call>)
    ensures
        auction.is_complete ==> r@.len() == 0,
        r@ == legal_among(candidate_calls(), auction.entries@, auction.is_complete, seat),
{
    let cands = candidates();
    let mut legal: Vec<Call> = Vec::new();
    let mut i: usize = 0;
    while i < cands.len()
        invariant
            cands@ == candidate_calls(),
            i <= cands@.len(),
            legal@ == legal_among(cands@.take(i as int), auction.entries@, auction.is_complete, seat),
            auction.is_complete ==> legal@.len() == 0,
        decreases cands@.len() - i,
    {
        assert(cands@.take(i + 1).drop_last() =~= cands@.take(i as int));
        let c = cands[i];
        if is_legal_call(auction, &c, seat) {
            legal.push(c);
        }
        i = i + 1;
    }
    assert(cands@.take(cands@.len() as int) =~= cands@);
    legal
}

/// Bids are strictly and totally ordered, and the 35 bids ascend from one
/// club to seven no-trump.
pub proof fn lemma_bid_order_total(l1: int, s1: BidSuit, l2: int, s2: BidSuit, l3: int, s3: BidSuit)
    ensures
        !bid_less(l1, s1, l1, s1),
        bid_less(l1, s1, l2, s2) ==> !bid_less(l2, s2, l1, s1),
        bid_less(l1, s1, l2, s2) && bid_less(l2, s2, l3, s3) ==> bid_less(l1, s1, l3, s3),
        (l1 == l2 && s1 == s2) || bid_less(l1, s1, l2, s2) || bid_less(l2, s2, l1, s1),
        forall|i: int, j: int|
            0 <= i < j < 35 ==> (#[trigger] all_bids()[i] matches Call::Bid { level: li, strain: si }
                && #[trigger] all_bids()[j] matches Call::Bid { level: lj, strain: sj } && bid_less(
                li as int,
                si,
                lj as int,
                sj,
            )),
{
    assert forall|i: int, j: int| 0 <= i < j < 35 implies (#[trigger] all_bids()[i] matches Call::Bid {
        level: li,
        strain: si,
    } && #[trigger] all_bids()[j] matches Call::Bid { level: lj, strain: sj } && bid_less(
        li as int,
        si,
        lj as int,
        sj,
    )) by {
        assert(strain_num(strain_at(i % 5)) == i % 5 + 1);
        assert(strain_num(strain_at(j % 5)) == j % 5 + 1);
    }
}

/// Appending leaves every snapshot as it was: each append builds a new
/// auction that begins with all the old entries and ends with its own call,
/// two appends to one auction do not affect each other, and appending to the
/// new auction keeps both earlier snapshots as its prefixes.
pub proof fn lemma_append_snapshots(
    a: Auction,
    e1: AuctionEntry,
    e2: AuctionEntry,
    e3: AuctionEntry,
    r1: Auction,
    r2: Auction,
    r3: Auction,
)
    requires
        appended(a, e1, Ok(r1)),
        appended(a, e2, Ok(r2)),
        appended(r1, e3, Ok(r3)),
    ensures
        r1.entries@.len() == a.entries@.len() + 1,
        r1.entries@.subrange(0, a.entries@.len() as int) == a.entries@,
        r1.entries@.last() == e1,
        r2.entries@.len() == a.entries@.len() + 1,
        r2.entries@.subrange(0, a.entries@.len() as int) == a.entries@,
        r2.entries@.last() == e2,
        r3.entries@.subrange(0, r1.entries@.len() as int) == r1.entries@,
        r3.entries@.subrange(0, a.entries@.len() as int) == a.entries@,
        r3.entries@.last() == e3,
{
    assert(r1.entries@.subrange(0, a.entries@.len() as int) =~= a.entries@);
    assert(r2.entries@.subrange(0, a.entries@.len() as int) =~= a.entries@);
    assert(r3.entries@.subrange(0, r1.entries@.len() as int) =~= r1.entries@);
    assert(r3.entries@.subrange(0, a.entries@.len() as int) =~= a.entries@);
}

} // verus!
