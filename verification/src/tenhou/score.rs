//! The textual score grammar: a ranked score is printed as
//! `<tier><payment>`, where the tier is `"<fu>符<han>飜"` or one of five
//! fixed tier words, and the payment is `"<n>点"` (ron), `"<n>点∀"`
//! (dealer self-draw) or `"<a>-<b>点"` (non-dealer self-draw).

use crate::text::{
    append_i32, append_u32, chars_vec, dec_digits, scan_number, sint_digits, spec_scan_number,
};
use vstd::prelude::*;
use vstd::string::StringExecFns;

verus! {

/// The score text did not follow the grammar.
pub struct InvalidRankedScoreError;

/// The tier of a winning hand: graduated (fu and han) or one of the five
/// named limits.
#[derive(Debug, Clone, Copy, PartialEq, Eq, Structural)]
pub enum ScoreRank {
    Normal { fu: u8, han: u8 },
    Mangan,
    Haneman,
    Baiman,
    Sanbaiman,
    Yakuman,
}

/// The payment of a winning hand, as the amounts that change hands.
#[derive(Debug, Clone, Copy, PartialEq, Eq, Structural)]
pub enum Score {
    OyaTsumo(i32),
    KoTsumo(i32, i32),
    Ron(i32),
}

/// A tier together with its payment.
#[derive(Debug, Clone, Copy, PartialEq, Eq, Structural)]
pub struct RankedScore {
    pub rank: ScoreRank,
    pub score: Score,
}

impl Default for ScoreRank {
    fn default() -> (r: Self)
        ensures
            r == (ScoreRank::Normal { fu: 0, han: 0 }),
    {
        ScoreRank::Normal { fu: 0, han: 0 }
    }
}

impl Default for Score {
    fn default() -> (r: Self)
        ensures
            r == Score::Ron(0),
    {
        Score::Ron(0)
    }
}

impl Default for RankedScore {
    fn default() -> (r: Self)
        ensures
            r == (RankedScore { rank: ScoreRank::Normal { fu: 0, han: 0 }, score: Score::Ron(0) }),
    {
        RankedScore { rank: ScoreRank::Normal { fu: 0, han: 0 }, score: Score::Ron(0) }
    }
}

/// The printed form of a tier.
pub open spec fn spec_rank_text(rank: ScoreRank) -> Seq<char> {
    match rank {
        ScoreRank::Normal { fu, han } => dec_digits(fu as int) + seq!['符'] + dec_digits(han as int)
            + seq!['飜'],
        ScoreRank::Mangan => seq!['満', '貫'],
        ScoreRank::Haneman => seq!['跳', '満'],
        ScoreRank::Baiman => seq!['倍', '満'],
        ScoreRank::Sanbaiman => seq!['三', '倍', '満'],
        ScoreRank::Yakuman => seq!['役', '満'],
    }
}

/// The printed form of a payment.
pub open spec fn spec_score_text(score: Score) -> Seq<char> {
    match score {
        Score::OyaTsumo(x) => sint_digits(x as int) + seq!['点', '∀'],
        Score::KoTsumo(a, b) => sint_digits(a as int) + seq!['-'] + sint_digits(b as int)
            + seq!['点'],
        Score::Ron(x) => sint_digits(x as int) + seq!['点'],
    }
}

/// The printed form of a ranked score.
pub open spec fn spec_ranked_score_text(rs: RankedScore) -> Seq<char> {
    spec_rank_text(rs.rank) + spec_score_text(rs.score)
}

impl ScoreRank {
    /// Prints the tier.
    pub fn to_text(&self) -> (r: String)
        ensures
            r@ == spec_rank_text(*self),
    {
        proof {
            reveal_strlit("符");
            reveal_strlit("飜");
            reveal_strlit("満貫");
            reveal_strlit("跳満");
            reveal_strlit("倍満");
            reveal_strlit("三倍満");
            reveal_strlit("役満");
        }
        match self {
            ScoreRank::Normal { fu, han } => {
                let mut r = String::new();
                append_u32(&mut r, *fu as u32);
                r.append("符");
                append_u32(&mut r, *han as u32);
                r.append("飜");
                proof {
                    assert(r@ =~= spec_rank_text(*self));
                }
                r
            }
            ScoreRank::Mangan => {
                let r = String::from_str("満貫");
                proof {
                    assert(r@ =~= spec_rank_text(*self));
                }
                r
            }
            ScoreRank::Haneman => {
                let r = String::from_str("跳満");
                proof {
                    assert(r@ =~= spec_rank_text(*self));
                }
                r
            }
            ScoreRank::Baiman => {
                let r = String::from_str("倍満");
                proof {
                    assert(r@ =~= spec_rank_text(*self));
                }
                r
            }
            ScoreRank::Sanbaiman => {
                let r = String::from_str("三倍満");
                proof {
                    assert(r@ =~= spec_rank_text(*self));
                }
                r
            }
            ScoreRank::Yakuman => {
                let r = String::from_str("役満");
                proof {
                    assert(r@ =~= spec_rank_text(*self));
                }
                r
            }
        }
    }
}

impl Score {
    /// Prints the payment.
    pub fn to_text(&self) -> (r: String)
        ensures
            r@ == spec_score_text(*self),
    {
        proof {
            reveal_strlit("点∀");
            reveal_strlit("点");
            reveal_strlit("-");
        }
        let mut r = String::new();
        match self {
            Score::OyaTsumo(x) => {
                append_i32(&mut r, *x);
                r.append("点∀");
            }
            Score::KoTsumo(a, b) => {
                append_i32(&mut r, *a);
                r.append("-");
                append_i32(&mut r, *b);
                r.append("点");
            }
            Score::Ron(x) => {
                append_i32(&mut r, *x);
                r.append("点");
            }
        }
        proof {
            assert(r@ =~= spec_score_text(*self));
        }
        r
    }
}

impl RankedScore {
    /// Prints the ranked score: the tier text followed by the payment text.
    pub fn to_text(&self) -> (r: String)
        ensures
            r@ == spec_ranked_score_text(*self),
    {
        let mut r = self.rank.to_text();
        let score_text = self.score.to_text();
        r.append(score_text.as_str());
        r
    }
}

pub open spec fn spec_match2(s: Seq<char>, i: int, c0: char, c1: char) -> bool {
    &&& i + 2 <= s.len()
    &&& s[i] == c0
    &&& s[i + 1] == c1
}

pub open spec fn spec_match3(s: Seq<char>, i: int, c0: char, c1: char, c2: char) -> bool {
    &&& i + 3 <= s.len()
    &&& s[i] == c0
    &&& s[i + 1] == c1
    &&& s[i + 2] == c2
}

/// Scanning a graduated tier at position `i`.
pub open spec fn spec_parse_rank_normal(s: Seq<char>, i: int) -> Option<(ScoreRank, int)> {
    match spec_scan_number(s, i, 255) {
        None => None,
        Some((fu, j)) => if j < s.len() && s[j] == '符' {
            match spec_scan_number(s, j + 1, 255) {
                None => None,
                Some((han, k)) => if k < s.len() && s[k] == '飜' {
                    Some((ScoreRank::Normal { fu: fu as u8, han: han as u8 }, k + 1))
                } else {
                    None
                },
            }
        } else {
            None
        },
    }
}

/// Scanning one of the five named tier words at position `i`, tried in a
/// fixed order.
pub open spec fn spec_parse_rank_named(s: Seq<char>, i: int) -> Option<(ScoreRank, int)> {
    if spec_match2(s, i, '満', '貫') {
        Some((ScoreRank::Mangan, i + 2))
    } else if spec_match2(s, i, '跳', '満') {
        Some((ScoreRank::Haneman, i + 2))
    } else if spec_match2(s, i, '倍', '満') {
        Some((ScoreRank::Baiman, i + 2))
    } else if spec_match3(s, i, '三', '倍', '満') {
        Some((ScoreRank::Sanbaiman, i + 3))
    } else if spec_match2(s, i, '役', '満') {
        Some((ScoreRank::Yakuman, i + 2))
    } else {
        None
    }
}

/// Scanning a tier: a graduated tier if one fits, else a named one.
pub open spec fn spec_parse_rank(s: Seq<char>, i: int) -> Option<(ScoreRank, int)> {
    match spec_parse_rank_normal(s, i) {
        Some(r) => Some(r),
        None => spec_parse_rank_named(s, i),
    }
}

/// Scanning a payment at position `i`.
pub open spec fn spec_parse_score(s: Seq<char>, i: int) -> Option<(Score, int)> {
    match spec_scan_number(s, i, 0x7fff_ffff) {
        None => None,
        Some((num, j)) => if j < s.len() && s[j] == '-' {
            match spec_scan_number(s, j + 1, 0x7fff_ffff) {
                None => None,
                Some((num2, k)) => if k < s.len() && s[k] == '点' {
                    Some((Score::KoTsumo(num as i32, num2 as i32), k + 1))
                } else {
                    None
                },
            }
        } else if j < s.len() && s[j] == '点' {
            if j + 1 < s.len() && s[j + 1] == '∀' {
                Some((Score::OyaTsumo(num as i32), j + 2))
            } else {
                Some((Score::Ron(num as i32), j + 1))
            }
        } else {
            None
        },
    }
}

/// Parsing a whole score string: a tier, a payment, then the end of the
/// string; any trailing character refuses the whole string.
pub open spec fn spec_parse_exact_ranked_score(s: Seq<char>) -> Option<RankedScore> {
    match spec_parse_rank(s, 0) {
        None => None,
        Some((rank, i)) => match spec_parse_score(s, i) {
            None => None,
            Some((score, j)) => if j == s.len() {
                Some(RankedScore { rank, score })
            } else {
                None
            },
        },
    }
}

fn parse_rank_normal(s: &Vec<char>, i: usize) -> (r: Option<(ScoreRank, usize)>)
    requires
        i <= s@.len(),
    ensures
        (r matches Some((rank, j)) ==> i <= j <= s@.len() && spec_parse_rank_normal(s@, i as int)
            == Some((rank, j as int))),
        (r is None ==> spec_parse_rank_normal(s@, i as int) is None),
{
    match scan_number(s, i, 255) {
        None => None,
        Some((fu, j)) => {
            if j < s.len() && s[j] == '符' {
                match scan_number(s, j + 1, 255) {
                    None => None,
                    Some((han, k)) => {
                        if k < s.len() && s[k] == '飜' {
                            Some((ScoreRank::Normal { fu: fu as u8, han: han as u8 }, k + 1))
                        } else {
                            None
                        }
                    }
                }
            } else {
                None
            }
        }
    }
}

fn parse_rank_named(s: &Vec<char>, i: usize) -> (r: Option<(ScoreRank, usize)>)
    requires
        i <= s@.len(),
    ensures
        (r matches Some((rank, j)) ==> i <= j <= s@.len() && spec_parse_rank_named(s@, i as int)
            == Some((rank, j as int))),
        (r is None ==> spec_parse_rank_named(s@, i as int) is None),
{
    if i < s.len() && i + 1 < s.len() && s[i] == '満' && s[i + 1] == '貫' {
        Some((ScoreRank::Mangan, i + 2))
    } else if i < s.len() && i + 1 < s.len() && s[i] == '跳' && s[i + 1] == '満' {
        Some((ScoreRank::Haneman, i + 2))
    } else if i < s.len() && i + 1 < s.len() && s[i] == '倍' && s[i + 1] == '満' {
        Some((ScoreRank::Baiman, i + 2))
    } else if i < s.len() && i + 1 < s.len() && i + 2 < s.len() && s[i] == '三' && s[i + 1] == '倍'
        && s[i + 2] == '満' {
        Some((ScoreRank::Sanbaiman, i + 3))
    } else if i < s.len() && i + 1 < s.len() && s[i] == '役' && s[i + 1] == '満' {
        Some((ScoreRank::Yakuman, i + 2))
    } else {
        None
    }
}

fn parse_rank(s: &Vec<char>, i: usize) -> (r: Option<(ScoreRank, usize)>)
    requires
        i <= s@.len(),
    ensures
        (r matches Some((rank, j)) ==> i <= j <= s@.len() && spec_parse_rank(s@, i as int) == Some(
            (rank, j as int),
        )),
        (r is None ==> spec_parse_rank(s@, i as int) is None),
{
    match parse_rank_normal(s, i) {
        Some(r) => Some(r),
        None => parse_rank_named(s, i),
    }
}

fn parse_score(s: &Vec<char>, i: usize) -> (r: Option<(Score, usize)>)
    requires
        i <= s@.len(),
    ensures
        (r matches Some((score, j)) ==> i <= j <= s@.len() && spec_parse_score(s@, i as int)
            == Some((score, j as int))),
        (r is None ==> spec_parse_score(s@, i as int) is None),
{
    match scan_number(s, i, 0x7fff_ffff) {
        None => None,
        Some((num, j)) => {
            if j < s.len() && s[j] == '-' {
                match scan_number(s, j + 1, 0x7fff_ffff) {
                    None => None,
                    Some((num2, k)) => {
                        if k < s.len() && s[k] == '点' {
                            Some((Score::KoTsumo(num as i32, num2 as i32), k + 1))
                        } else {
                            None
                        }
                    }
                }
            } else if j < s.len() && s[j] == '点' {
                if j + 1 < s.len() && s[j + 1] == '∀' {
                    Some((Score::OyaTsumo(num as i32), j + 2))
                } else {
                    Some((Score::Ron(num as i32), j + 1))
                }
            } else {
                None
            }
        }
    }
}

/// Whether a payment can be printed and scanned back: its amounts are
/// non-negative (a negative amount prints a sign that the grammar refuses).
pub open spec fn score_printable(score: Score) -> bool {
    match score {
        Score::OyaTsumo(x) => x >= 0,
        Score::KoTsumo(a, b) => a >= 0 && b >= 0,
        Score::Ron(x) => x >= 0,
    }
}

proof fn lemma_parse_rank_at(rank: ScoreRank, b: Seq<char>)
    ensures
        spec_parse_rank(spec_rank_text(rank) + b, 0) == Some(
            (rank, spec_rank_text(rank).len() as int),
        ),
{
    let a = spec_rank_text(rank);
    let s = a + b;
    match rank {
        ScoreRank::Normal { fu, han } => {
            let d1 = dec_digits(fu as int);
            let d2 = dec_digits(han as int);
            crate::text::lemma_dec_digits_val(fu as int);
            crate::text::lemma_dec_digits_val(han as int);
            let n1 = d1.len() as int;
            assert(s.subrange(0, n1) =~= d1);
            assert(s[n1] == '符');
            crate::text::lemma_scan_at_digits(s, 0, fu as int, 255);
            let i2 = n1 + 1;
            let n2 = i2 + d2.len();
            assert(s.subrange(i2, n2) =~= d2);
            assert(s[n2] == '飜');
            crate::text::lemma_scan_at_digits(s, i2, han as int, 255);
            assert(spec_parse_rank_normal(s, 0) == Some((rank, n2 + 1)));
        }
        ScoreRank::Mangan => {
            assert(s[0] == '満' && s[1] == '貫');
            assert(spec_parse_rank_normal(s, 0) is None);
        }
        ScoreRank::Haneman => {
            assert(s[0] == '跳' && s[1] == '満');
            assert(spec_parse_rank_normal(s, 0) is None);
        }
        ScoreRank::Baiman => {
            assert(s[0] == '倍' && s[1] == '満');
            assert(spec_parse_rank_normal(s, 0) is None);
        }
        ScoreRank::Sanbaiman => {
            assert(s[0] == '三' && s[1] == '倍' && s[2] == '満');
            assert(spec_parse_rank_normal(s, 0) is None);
        }
        ScoreRank::Yakuman => {
            assert(s[0] == '役' && s[1] == '満');
            assert(spec_parse_rank_normal(s, 0) is None);
        }
    }
}

proof fn lemma_parse_score_at(score: Score, a: Seq<char>)
    requires
        score_printable(score),
    ensures
        spec_parse_score(a + spec_score_text(score), a.len() as int) == Some(
            (score, a.len() + spec_score_text(score).len() as int),
        ),
{
    let b = spec_score_text(score);
    let s = a + b;
    let i0 = a.len() as int;
    match score {
        Score::OyaTsumo(x) => {
            let d = dec_digits(x as int);
            crate::text::lemma_dec_digits_val(x as int);
            let j = i0 + d.len();
            assert(s.subrange(i0, j) =~= d);
            assert(s[j] == '点' && s[j + 1] == '∀');
            crate::text::lemma_scan_at_digits(s, i0, x as int, 0x7fff_ffff);
            assert(spec_parse_score(s, i0) == Some((score, j + 2)));
        }
        Score::KoTsumo(x, y) => {
            let d1 = dec_digits(x as int);
            let d2 = dec_digits(y as int);
            crate::text::lemma_dec_digits_val(x as int);
            crate::text::lemma_dec_digits_val(y as int);
            let j = i0 + d1.len();
            assert(s.subrange(i0, j) =~= d1);
            assert(s[j] == '-');
            crate::text::lemma_scan_at_digits(s, i0, x as int, 0x7fff_ffff);
            let k = j + 1 + d2.len();
            assert(s.subrange(j + 1, k) =~= d2);
            assert(s[k] == '点');
            crate::text::lemma_scan_at_digits(s, j + 1, y as int, 0x7fff_ffff);
            assert(spec_parse_score(s, i0) == Some((score, k + 1)));
        }
        Score::Ron(x) => {
            let d = dec_digits(x as int);
            crate::text::lemma_dec_digits_val(x as int);
            let j = i0 + d.len();
            assert(s.subrange(i0, j) =~= d);
            assert(s[j] == '点');
            crate::text::lemma_scan_at_digits(s, i0, x as int, 0x7fff_ffff);
            assert(j + 1 == s.len());
            assert(spec_parse_score(s, i0) == Some((score, j + 1)));
        }
    }
}

/// Printing a ranked score and parsing the text back yields the same
/// ranked score, for every payment whose amounts are non-negative — in
/// particular for every ranked score the point tables produce.
pub proof fn lemma_ranked_score_round_trip(rs: RankedScore)
    requires
        score_printable(rs.score),
    ensures
        spec_parse_exact_ranked_score(spec_ranked_score_text(rs)) == Some(rs),
{
    let a = spec_rank_text(rs.rank);
    let b = spec_score_text(rs.score);
    let s = spec_ranked_score_text(rs);
    lemma_parse_rank_at(rs.rank, b);
    lemma_parse_score_at(rs.score, a);
    assert(spec_parse_exact_ranked_score(s) == Some(RankedScore { rank: rs.rank, score: rs.score }));
}

/// Parses a whole score string, refusing any trailing character.
pub fn parse_exact_ranked_score(s: &str) -> (r: Option<RankedScore>)
    ensures
        r == spec_parse_exact_ranked_score(s@),
{
    let cs = chars_vec(s);
    match parse_rank(&cs, 0) {
        None => None,
        Some((rank, i)) => match parse_score(&cs, i) {
            None => None,
            Some((score, j)) => {
                if j == cs.len() {
                    Some(RankedScore { rank, score })
                } else {
                    None
                }
            }
        },
    }
}

} // verus!
