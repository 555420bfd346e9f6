use vstd::prelude::*;

use crate::types::{BidSuit, Contract, Seat, Vulnerability};

verus! {

pub open spec fn vulnerable_spec(declarer: Seat, vulnerability: Vulnerability) -> bool {
    match vulnerability {
        Vulnerability::Neither => false,
        Vulnerability::Both => true,
        Vulnerability::NorthSouth => declarer == Seat::North || declarer == Seat::South,
        Vulnerability::EastWest => declarer == Seat::East || declarer == Seat::West,
    }
}

/// Trick points of the contracted tricks: 20 a level in a minor, 30 in a
/// major, 40 then 30 in no-trump; doubled twice that, redoubled four times.
pub open spec fn trick_points_spec(c: Contract) -> int {
    let level = c.level as int;
    let base = match c.strain {
        BidSuit::Clubs | BidSuit::Diamonds => 20 * level,
        BidSuit::Hearts | BidSuit::Spades => 30 * level,
        BidSuit::NoTrump => 40 + 30 * (level - 1),
    };
    if c.redoubled {
        base * 4
    } else if c.doubled {
        base * 2
    } else {
        base
    }
}

/// Value of one undoubled overtrick in a strain.
pub open spec fn overtrick_value(strain: BidSuit) -> int {
    match strain {
        BidSuit::Clubs | BidSuit::Diamonds => 20,
        _ => 30,
    }
}

/// Score of a contract made with `over` overtricks.
pub open spec fn making_score_spec(c: Contract, over: int, vul: bool) -> int {
    let tp = trick_points_spec(c);
    let game = if tp >= 100 {
        if vul {
            500int
        } else {
            300int
        }
    } else {
        50int
    };
    let slam = if c.level == 6 {
        if vul {
            750int
        } else {
            500int
        }
    } else if c.level == 7 {
        if vul {
            1500int
        } else {
            1000int
        }
    } else {
        0int
    };
    let insult = if c.redoubled {
        100int
    } else if c.doubled {
        50int
    } else {
        0int
    };
    let overtricks = if c.redoubled {
        over * if vul {
            400int
        } else {
            200int
        }
    } else if c.doubled {
        over * if vul {
            200int
        } else {
            100int
        }
    } else {
        over * overtrick_value(c.strain)
    };
    tp + game + slam + insult + overtricks
}

/// Penalty for the `i`-th undertrick (counting from 1) of a doubled contract.
pub open spec fn doubled_step(i: int, vul: bool) -> int {
    if vul {
        if i == 1 {
            200
        } else {
            300
        }
    } else {
        if i == 1 {
            100
        } else if i <= 3 {
            200
        } else {
            300
        }
    }
}

/// Sum of the doubled penalties of the first `n` undertricks.
pub open spec fn doubled_penalty_spec(n: int, vul: bool) -> int
    decreases n,
{
    if n <= 0 {
        0
    } else {
        doubled_penalty_spec(n - 1, vul) + doubled_step(n, vul)
    }
}

/// Penalty for going down `under` tricks.
pub open spec fn penalty_spec(c: Contract, under: int, vul: bool) -> int {
    if c.redoubled {
        doubled_penalty_spec(under, vul) * 2
    } else if c.doubled {
        doubled_penalty_spec(under, vul)
    } else {
        under * if vul {
            100int
        } else {
            50int
        }
    }
}

/// Duplicate score of a contract that took `tricks` tricks: positive when made.
pub open spec fn score_spec(c: Contract, tricks: int, vulnerability: Vulnerability) -> int {
    let required = c.level as int + 6;
    let vul = vulnerable_spec(c.declarer, vulnerability);
    if tricks >= required {
        making_score_spec(c, tricks - required, vul)
    } else {
        -penalty_spec(c, required - tricks, vul)
    }
}

pub fn is_vulnerable(declarer: Seat, vulnerability: Vulnerability) -> (r: bool)
    ensures
        r == vulnerable_spec(declarer, vulnerability),
{
    match vulnerability {
        Vulnerability::Neither => false,
        Vulnerability::Both => true,
        Vulnerability::NorthSouth => declarer == Seat::North || declarer == Seat::South,
        Vulnerability::EastWest => declarer == Seat::East || declarer == Seat::West,
    }
}

/// Trick points for the contract, before bonuses.
pub fn calculate_trick_points(contract: &Contract) -> (r: i32)
    ensures
        r == trick_points_spec(*contract),
{
    let level = contract.level as i32;
    let base = match contract.strain {
        BidSuit::Clubs | BidSuit::Diamonds => 20 * level,
        BidSuit::Hearts | BidSuit::Spades => 30 * level,
        BidSuit::NoTrump => 40 + 30 * (level - 1),
    };
    if contract.redoubled {
        base * 4
    } else if contract.doubled {
        base * 2
    } else {
        base
    }
}

/// Whether the contract's trick points reach game.
pub fn is_game(contract: &Contract) -> (r: bool)
    ensures
        r == (trick_points_spec(*contract) >= 100),
{
    calculate_trick_points(contract) >= 100
}

fn trick_value(strain: BidSuit) -> (r: i32)
    ensures
        r == overtrick_value(strain),
{
    match strain {
        BidSuit::Clubs | BidSuit::Diamonds => 20,
        BidSuit::Hearts | BidSuit::Spades => 30,
        BidSuit::NoTrump => 30,
    }
}

fn calculate_making_score(contract: &Contract, overtricks: i32, vulnerable: bool) -> (r: i32)
    requires
        0 <= overtricks <= 255,
    ensures
        r == making_score_spec(*contract, overtricks as int, vulnerable),
{
    let trick_points = calculate_trick_points(contract);
    let mut bonus: i32 = if trick_points >= 100 {
        if vulnerable {
            500
        } else {
            300
        }
    } else {
        50
    };
    if contract.level == 6 {
        bonus = bonus + if vulnerable {
            750
        } else {
            500
        };
    } else if contract.level == 7 {
        bonus = bonus + if vulnerable {
            1500
        } else {
            1000
        };
    }
    if contract.redoubled {
        bonus = bonus + 100;
    } else if contract.doubled {
        bonus = bonus + 50;
    }
    let overtrick_points: i32 = if contract.redoubled {
        overtricks * if vulnerable {
            400
        } else {
            200
        }
    } else if contract.doubled {
        overtricks * if vulnerable {
            200
        } else {
            100
        }
    } else {
        let tv = trick_value(contract.strain);
        assert(0 <= overtricks * tv <= 255 * 30) by (nonlinear_arith)
            requires
                0 <= overtricks <= 255,
                20 <= tv <= 30,
        ;
        overtricks * tv
    };
    trick_points + bonus + overtrick_points
}

proof fn lemma_doubled_penalty_bounds(n: int, vul: bool)
    requires
        n >= 0,
    ensures
        0 <= doubled_penalty_spec(n, vul) <= 300 * n,
    decreases n,
{
    if n > 0 {
        lemma_doubled_penalty_bounds(n - 1, vul);
    }
}

fn calculate_doubled_penalty(undertricks: i32, vulnerable: bool) -> (r: i32)
    requires
        0 <= undertricks <= 300,
    ensures
        r == doubled_penalty_spec(undertricks as int, vulnerable),
{
    let mut total: i32 = 0;
    let mut i: i32 = 1;
    while i <= undertricks
        invariant
            1 <= i <= undertricks + 1,
            undertricks <= 300,
            total == doubled_penalty_spec(i - 1, vulnerable),
        decreases undertricks + 1 - i,
    {
        proof {
            lemma_doubled_penalty_bounds(i as int, vulnerable);
        }
        if vulnerable {
            total = total + if i == 1 {
                200
            } else {
                300
            };
        } else {
            total = total + if i == 1 {
                100
            } else if i <= 3 {
                200
            } else {
                300
            };
        }
        i = i + 1;
    }
    total
}

fn calculate_penalty(contract: &Contract, undertricks: i32, vulnerable: bool) -> (r: i32)
    requires
        0 <= undertricks <= 300,
    ensures
        r == penalty_spec(*contract, undertricks as int, vulnerable),
{
    proof {
        lemma_doubled_penalty_bounds(undertricks as int, vulnerable);
    }
    if contract.redoubled {
        calculate_doubled_penalty(undertricks, vulnerable) * 2
    } else if contract.doubled {
        calculate_doubled_penalty(undertricks, vulnerable)
    } else {
        undertricks * if vulnerable {
            100
        } else {
            50
        }
    }
}

/// Duplicate score of the contract when declarer's side took `tricks_won`
/// tricks: positive when made, negative when defeated.
pub fn calculate_score(contract: &Contract, tricks_won: u8, vulnerability: Vulnerability) -> (r: i32)
    ensures
        r == score_spec(*contract, tricks_won as int, vulnerability),
{
    let required = contract.level as i32 + 6;
    let tricks = tricks_won as i32;
    let vulnerable = is_vulnerable(contract.declarer, vulnerability);
    if tricks >= required {
        calculate_making_score(contract, tricks - required, vulnerable)
    } else {
        proof {
            lemma_doubled_penalty_bounds(required - tricks, vulnerable);
        }
        let p = calculate_penalty(contract, required - tricks, vulnerable);
        -p
    }
}

} // verus!
