use vstd::prelude::*;
use vstd::string::StringExecFns;

use crate::types::{BidSuit, Call};

verus! {

/// Every way an engine operation can fail.
#[derive(Debug, Clone, PartialEq, Eq)]
pub enum EngineError {
    /// A hand was built from a number of cards other than thirteen.
    InvalidHandSize(usize),
    /// A call was added to an auction that has already ended.
    AuctionComplete,
    /// A call broke the bidding rules; it holds a description of the call.
    IllegalCall(String),
    /// A trick winner was asked for before four cards were played.
    IncompleteTrick,
    /// A declarer or contract was asked for in an auction without a bid.
    NoBidsInAuction,
    /// No deal met the constraints within the attempt budget, which it holds.
    MaxAttemptsExceeded(u32),
    NotImplemented(String),
    /// The double-dummy solver failed; it holds the solver's message.
    DdsError(String),
}

pub open spec fn digit_text(d: int) -> Seq<char> {
    if d == 0 {
        seq!['0']
    } else if d == 1 {
        seq!['1']
    } else if d == 2 {
        seq!['2']
    } else if d == 3 {
        seq!['3']
    } else if d == 4 {
        seq!['4']
    } else if d == 5 {
        seq!['5']
    } else if d == 6 {
        seq!['6']
    } else if d == 7 {
        seq!['7']
    } else if d == 8 {
        seq!['8']
    } else {
        seq!['9']
    }
}

/// Decimal digits of `n`, most significant first, without leading zeros.
pub open spec fn decimal_text(n: nat) -> Seq<char>
    decreases n,
{
    if n < 10 {
        digit_text(n as int)
    } else {
        decimal_text(n / 10) + digit_text((n % 10) as int)
    }
}

pub open spec fn strain_text(strain: BidSuit) -> Seq<char> {
    match strain {
        BidSuit::Clubs => "Clubs"@,
        BidSuit::Diamonds => "Diamonds"@,
        BidSuit::Hearts => "Hearts"@,
        BidSuit::Spades => "Spades"@,
        BidSuit::NoTrump => "NoTrump"@,
    }
}

/// How a call is described in an error: `Pass`, `Double`, `Redouble`, or
/// `Bid { level: 3, strain: NoTrump }`.
pub open spec fn call_text(call: Call) -> Seq<char> {
    match call {
        Call::Pass => "Pass"@,
        Call::Double => "Double"@,
        Call::Redouble => "Redouble"@,
        Call::Bid { level, strain } => "Bid { level: "@ + decimal_text(level as nat) + ", strain: "@
            + strain_text(strain) + " }"@,
    }
}

/// The message of an error.
pub open spec fn error_text(e: EngineError) -> Seq<char> {
    match e {
        EngineError::InvalidHandSize(n) => "Hand must have exactly 13 cards, got "@ + decimal_text(
            n as nat,
        ),
        EngineError::AuctionComplete => "Cannot add call to completed auction"@,
        EngineError::IllegalCall(s) => "Illegal call: "@ + s@,
        EngineError::IncompleteTrick => "Trick must have exactly 4 plays"@,
        EngineError::NoBidsInAuction => "No bids in auction — cannot determine declarer"@,
        EngineError::MaxAttemptsExceeded(n) => "Failed to generate deal after "@ + decimal_text(
            n as nat,
        ) + " attempts"@,
        EngineError::NotImplemented(s) => s@,
        EngineError::DdsError(s) => "DDS error: "@ + s@,
    }
}

fn digit_str(d: u64) -> (r: &'static str)
    requires
        d < 10,
    ensures
        r@ == digit_text(d as int),
{
    if d == 0 {
        proof { reveal_strlit("0"); }
        "0"
    } else if d == 1 {
        proof { reveal_strlit("1"); }
        "1"
    } else if d == 2 {
        proof { reveal_strlit("2"); }
        "2"
    } else if d == 3 {
        proof { reveal_strlit("3"); }
        "3"
    } else if d == 4 {
        proof { reveal_strlit("4"); }
        "4"
    } else if d == 5 {
        proof { reveal_strlit("5"); }
        "5"
    } else if d == 6 {
        proof { reveal_strlit("6"); }
        "6"
    } else if d == 7 {
        proof { reveal_strlit("7"); }
        "7"
    } else if d == 8 {
        proof { reveal_strlit("8"); }
        "8"
    } else {
        proof { reveal_strlit("9"); }
        "9"
    }
}

/// `n` written in decimal.
pub fn decimal(n: u64) -> (r: String)
    ensures
        r@ == decimal_text(n as nat),
    decreases n,
{
    if n < 10 {
        String::from_str(digit_str(n))
    } else {
        let mut s = decimal(n / 10);
        s.append(digit_str(n % 10));
        s
    }
}

fn strain_name(strain: BidSuit) -> (r: &'static str)
    ensures
        r@ == strain_text(strain),
{
    match strain {
        BidSuit::Clubs => "Clubs",
        BidSuit::Diamonds => "Diamonds",
        BidSuit::Hearts => "Hearts",
        BidSuit::Spades => "Spades",
        BidSuit::NoTrump => "NoTrump",
    }
}

/// The description of a call that an illegal-call error carries.
pub fn describe_call(call: &Call) -> (r: String)
    ensures
        r@ == call_text(*call),
{
    match call {
        Call::Pass => String::from_str("Pass"),
        Call::Double => String::from_str("Double"),
        Call::Redouble => String::from_str("Redouble"),
        Call::Bid { level, strain } => {
            let mut s = String::from_str("Bid { level: ");
            let digits = decimal(*level as u64);
            s.append(digits.as_str());
            s.append(", strain: ");
            s.append(strain_name(*strain));
            s.append(" }");
            s
        },
    }
}

impl EngineError {
    /// The error's message, as shown to a caller.
    pub fn message(&self) -> (r: String)
        ensures
            r@ == error_text(*self),
    {
        match self {
            EngineError::InvalidHandSize(n) => {
                String::from_str("Hand must have exactly 13 cards, got ").concat(
                    decimal(*n as u64).as_str(),
                )
            },
            EngineError::AuctionComplete => String::from_str("Cannot add call to completed auction"),
            EngineError::IllegalCall(s) => String::from_str("Illegal call: ").concat(s.as_str()),
            EngineError::IncompleteTrick => String::from_str("Trick must have exactly 4 plays"),
            EngineError::NoBidsInAuction => String::from_str(
                "No bids in auction — cannot determine declarer",
            ),
            EngineError::MaxAttemptsExceeded(n) => {
                let s = String::from_str("Failed to generate deal after ").concat(
                    decimal(*n as u64).as_str(),
                );
                s.concat(" attempts")
            },
            EngineError::NotImplemented(s) => String::from_str(s.as_str()),
            EngineError::DdsError(s) => String::from_str("DDS error: ").concat(s.as_str()),
        }
    }
}

} // verus!
