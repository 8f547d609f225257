//! The point tables: fu and han give a base figure `fu * 2^(han+2)`; a
//! base of 2000 or more switches to a named limit tier selected by han,
//! with fixed payouts; below that the payments are the base times a seat
//! factor, rounded up to the next hundred.

use crate::tenhou::score::{RankedScore, Score, ScoreRank, score_printable};
use vstd::prelude::*;

verus! {

/// Two to the given power.
pub open spec fn pow2(n: nat) -> int
    decreases n,
{
    if n == 0 {
        1
    } else {
        2 * pow2((n - 1) as nat)
    }
}

pub proof fn lemma_pow2_pos(n: nat)
    ensures
        pow2(n) >= 1,
    decreases n,
{
    if n > 0 {
        lemma_pow2_pos((n - 1) as nat);
    }
}

/// The base figure of a graduated hand.
pub open spec fn spec_base_points(fu: u8, han: u8) -> int {
    fu as int * pow2((han + 2) as nat)
}

/// The next multiple of 100 at or above a non-negative figure.
pub open spec fn spec_ceil100(x: int) -> int {
    ((x + 99) / 100) * 100
}

/// Rounds a non-negative point figure up to the next multiple of 100.
pub fn ceil_to_100(x: i32) -> (r: i32)
    requires
        0 <= x <= 0x7fff_ff00,
    ensures
        r == spec_ceil100(x as int),
        x <= r < x + 100,
        r >= 0,
{
    (x + 99) / 100 * 100
}

/// The base figure when it stays below 2000, or nothing when the limit
/// tiers take over.
pub fn calc_base_points(fu: u8, han: u8) -> (r: Option<i32>)
    ensures
        (r matches Some(b) ==> b == spec_base_points(fu, han) && 0 <= b < 2000),
        (r is None ==> spec_base_points(fu, han) >= 2000),
{
    let steps: u16 = han as u16 + 2;
    let mut b: i32 = fu as i32;
    let mut k: u16 = 0;
    while k < steps
        invariant
            0 <= k <= steps,
            0 <= b < 2000,
            spec_base_points(fu, han) == b * pow2((steps - k) as nat),
        decreases steps - k,
    {
        proof {
            let m = (steps - k) as nat;
            lemma_pow2_pos((m - 1) as nat);
            assert(pow2(m) == 2 * pow2((m - 1) as nat));
            assert(b * pow2(m) == (b * 2) * pow2((m - 1) as nat)) by (nonlinear_arith)
                requires
                    pow2(m) == 2 * pow2((m - 1) as nat),
            ;
        }
        let b2 = b * 2;
        if b2 >= 2000 {
            proof {
                let m = (steps - (k + 1)) as nat;
                lemma_pow2_pos(m);
                assert(b2 * pow2(m) >= 2000) by (nonlinear_arith)
                    requires
                        b2 >= 2000,
                        pow2(m) >= 1,
                ;
            }
            return None;
        }
        b = b2;
        k = k + 1;
    }
    proof {
        assert(pow2(0) == 1);
        assert(b * 1 == b) by (nonlinear_arith);
    }
    Some(b)
}

/// The limit tier that a han count selects.
pub open spec fn spec_named_rank(han: u8) -> ScoreRank {
    if han >= 13 {
        ScoreRank::Yakuman
    } else if han >= 11 {
        ScoreRank::Sanbaiman
    } else if han >= 8 {
        ScoreRank::Baiman
    } else if han >= 6 {
        ScoreRank::Haneman
    } else {
        ScoreRank::Mangan
    }
}

/// The per-limit dealer ron payout.
pub open spec fn spec_named_oya_ron(han: u8) -> int {
    if han >= 13 { 48000 } else if han >= 11 { 36000 } else if han >= 8 { 24000 } else if han >= 6 {
        18000
    } else {
        12000
    }
}

/// The per-limit non-dealer ron payout.
pub open spec fn spec_named_ko_ron(han: u8) -> int {
    if han >= 13 { 32000 } else if han >= 11 { 24000 } else if han >= 8 { 16000 } else if han >= 6 {
        12000
    } else {
        8000
    }
}

/// The per-limit dealer self-draw payout, taken from each opponent.
pub open spec fn spec_named_oya_tsumo(han: u8) -> int {
    if han >= 13 { 16000 } else if han >= 11 { 12000 } else if han >= 8 { 8000 } else if han >= 6 {
        6000
    } else {
        4000
    }
}

/// The score of a dealer win by discard.
pub open spec fn spec_oya_ron(fu: u8, han: u8) -> RankedScore {
    if spec_base_points(fu, han) >= 2000 {
        RankedScore { rank: spec_named_rank(han), score: Score::Ron(spec_named_oya_ron(han) as i32) }
    } else {
        RankedScore {
            rank: ScoreRank::Normal { fu, han },
            score: Score::Ron(spec_ceil100(spec_base_points(fu, han) * 6) as i32),
        }
    }
}

/// The score of a non-dealer win by discard.
pub open spec fn spec_ko_ron(fu: u8, han: u8) -> RankedScore {
    if spec_base_points(fu, han) >= 2000 {
        RankedScore { rank: spec_named_rank(han), score: Score::Ron(spec_named_ko_ron(han) as i32) }
    } else {
        RankedScore {
            rank: ScoreRank::Normal { fu, han },
            score: Score::Ron(spec_ceil100(spec_base_points(fu, han) * 4) as i32),
        }
    }
}

/// The score of a dealer self-draw; the payment is owed by each of the
/// three opponents.
pub open spec fn spec_oya_tsumo(fu: u8, han: u8) -> RankedScore {
    if spec_base_points(fu, han) >= 2000 {
        RankedScore {
            rank: spec_named_rank(han),
            score: Score::OyaTsumo(spec_named_oya_tsumo(han) as i32),
        }
    } else {
        RankedScore {
            rank: ScoreRank::Normal { fu, han },
            score: Score::OyaTsumo(spec_ceil100(spec_base_points(fu, han) * 2) as i32),
        }
    }
}

/// The score of a non-dealer self-draw; the smaller amount is owed by
/// each other non-dealer, the larger by the dealer.
pub open spec fn spec_ko_tsumo(fu: u8, han: u8) -> RankedScore {
    if spec_base_points(fu, han) >= 2000 {
        RankedScore {
            rank: spec_named_rank(han),
            score: Score::KoTsumo(
                (spec_named_oya_tsumo(han) / 2) as i32,
                spec_named_oya_tsumo(han) as i32,
            ),
        }
    } else {
        RankedScore {
            rank: ScoreRank::Normal { fu, han },
            score: Score::KoTsumo(
                spec_ceil100(spec_base_points(fu, han)) as i32,
                spec_ceil100(spec_base_points(fu, han) * 2) as i32,
            ),
        }
    }
}

pub fn get_oya_ron(fu: u8, han: u8) -> (r: RankedScore)
    ensures
        r == spec_oya_ron(fu, han),
        score_printable(r.score),
{
    match calc_base_points(fu, han) {
        None => {
            let amount: i32 = if han >= 13 { 48000 } else if han >= 11 { 36000 } else if han >= 8 {
                24000
            } else if han >= 6 {
                18000
            } else {
                12000
            };
            RankedScore { rank: named_rank(han), score: Score::Ron(amount) }
        }
        Some(b) => RankedScore {
            rank: ScoreRank::Normal { fu, han },
            score: Score::Ron(ceil_to_100(b * 6)),
        },
    }
}

pub fn get_ko_ron(fu: u8, han: u8) -> (r: RankedScore)
    ensures
        r == spec_ko_ron(fu, han),
        score_printable(r.score),
{
    match calc_base_points(fu, han) {
        None => {
            let amount: i32 = if han >= 13 { 32000 } else if han >= 11 { 24000 } else if han >= 8 {
                16000
            } else if han >= 6 {
                12000
            } else {
                8000
            };
            RankedScore { rank: named_rank(han), score: Score::Ron(amount) }
        }
        Some(b) => RankedScore {
            rank: ScoreRank::Normal { fu, han },
            score: Score::Ron(ceil_to_100(b * 4)),
        },
    }
}

pub fn get_oya_tsumo(fu: u8, han: u8) -> (r: RankedScore)
    ensures
        r == spec_oya_tsumo(fu, han),
        score_printable(r.score),
{
    match calc_base_points(fu, han) {
        None => {
            let amount: i32 = if han >= 13 { 16000 } else if han >= 11 { 12000 } else if han >= 8 {
                8000
            } else if han >= 6 {
                6000
            } else {
                4000
            };
            RankedScore { rank: named_rank(han), score: Score::OyaTsumo(amount) }
        }
        Some(b) => RankedScore {
            rank: ScoreRank::Normal { fu, han },
            score: Score::OyaTsumo(ceil_to_100(b * 2)),
        },
    }
}

pub fn get_ko_tsumo(fu: u8, han: u8) -> (r: RankedScore)
    ensures
        r == spec_ko_tsumo(fu, han),
        score_printable(r.score),
{
    match calc_base_points(fu, han) {
        None => {
            let amount: i32 = if han >= 13 { 16000 } else if han >= 11 { 12000 } else if han >= 8 {
                8000
            } else if han >= 6 {
                6000
            } else {
                4000
            };
            RankedScore { rank: named_rank(han), score: Score::KoTsumo(amount / 2, amount) }
        }
        Some(b) => RankedScore {
            rank: ScoreRank::Normal { fu, han },
            score: Score::KoTsumo(ceil_to_100(b), ceil_to_100(b * 2)),
        },
    }
}

fn named_rank(han: u8) -> (r: ScoreRank)
    ensures
        r == spec_named_rank(han),
{
    if han >= 13 {
        ScoreRank::Yakuman
    } else if han >= 11 {
        ScoreRank::Sanbaiman
    } else if han >= 8 {
        ScoreRank::Baiman
    } else if han >= 6 {
        ScoreRank::Haneman
    } else {
        ScoreRank::Mangan
    }
}

/// A yakuman hand of a dealer, won by self-draw, stacked `num` times.
pub fn get_oya_tsumo_yakuman(num: u8) -> (r: RankedScore)
    ensures
        r == (RankedScore {
            rank: ScoreRank::Yakuman,
            score: Score::OyaTsumo((16000 * num as int) as i32),
        }),
        score_printable(r.score),
{
    RankedScore { rank: ScoreRank::Yakuman, score: Score::OyaTsumo(16000 * num as i32) }
}

/// A yakuman hand of a non-dealer, won by self-draw, stacked `num` times.
pub fn get_ko_tsumo_yakuman(num: u8) -> (r: RankedScore)
    ensures
        r == (RankedScore {
            rank: ScoreRank::Yakuman,
            score: Score::KoTsumo((8000 * num as int) as i32, (16000 * num as int) as i32),
        }),
        score_printable(r.score),
{
    RankedScore {
        rank: ScoreRank::Yakuman,
        score: Score::KoTsumo(8000 * num as i32, 16000 * num as i32),
    }
}

/// A yakuman hand of a dealer, won by discard, stacked `num` times.
pub fn get_oya_ron_yakuman(num: u8) -> (r: RankedScore)
    ensures
        r == (RankedScore { rank: ScoreRank::Yakuman, score: Score::Ron((48000 * num as int) as i32) }),
        score_printable(r.score),
{
    RankedScore { rank: ScoreRank::Yakuman, score: Score::Ron(48000 * num as i32) }
}

/// A yakuman hand of a non-dealer, won by discard, stacked `num` times.
pub fn get_ko_ron_yakuman(num: u8) -> (r: RankedScore)
    ensures
        r == (RankedScore { rank: ScoreRank::Yakuman, score: Score::Ron((32000 * num as int) as i32) }),
        score_printable(r.score),
{
    RankedScore { rank: ScoreRank::Yakuman, score: Score::Ron(32000 * num as i32) }
}

} // verus!
