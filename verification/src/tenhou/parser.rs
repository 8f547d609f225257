//! The reader of the array-based text encoding: a document reaches this
//! module as a tree of plain values, and the decorated-string codec turns
//! call and discard tokens back into canonical stream entries.
//!
//! Numbers that the platform stores as free-form numeric text are carried
//! as their text; turning them into machine floats is the document
//! layer's concern.

use crate::tenhou::model::{
    Agari, Connection, Direction, ExtraRyuukyokuReason, GamePoint, IncomingTile, OutgoingTile,
    Round, RoundPlayer, RoundResult, RoundSettings, Rule, TenhouJson, Tile, Yaku, YakuLevel,
    YakuPair, spec_reason_text, spec_valid_tile, spec_yaku_text,
};
use crate::tenhou::score::{RankedScore, parse_exact_ranked_score, spec_parse_exact_ranked_score};
use crate::text::{all_digits, chars_vec, digit_val, is_digit_char};
use vstd::prelude::*;
use vstd::string::StringExecFns;

verus! {

/// A failure while reading the text encoding, with a location tag.
#[derive(Debug, PartialEq, Clone)]
pub struct TenhouJsonError {
    pub kind: TenhouJsonErrorKind,
    pub path: String,
}

impl TenhouJsonError {
    pub fn new(kind: TenhouJsonErrorKind) -> (r: Self)
        ensures
            r.kind == kind,
            r.path@ == Seq::<char>::empty(),
    {
        TenhouJsonError { path: String::new(), kind }
    }
}

/// The kinds of reading failure.
#[derive(Debug, PartialEq, Eq, Structural, Clone, Copy)]
pub enum TenhouJsonErrorKind {
    JsonParseError,
    MissingField,
    TypeMismatch,
    InvalidArrayLength,
    InvalidMeld,
    InvalidRiichi,
    InvalidAnkan,
    InvalidKakan,
    InvalidDecoration,
    InvalidTileNumber,
    InvalidExtraRyuukyokuReason,
    InvalidYakuName,
    InvalidYakuLevel,
    InvalidYakuFormat,
    InvalidRankedScore,
    InvalidAgariFormat,
    InvalidLetterPosition,
}

pub type TenhouJsonResult<T> = Result<T, TenhouJsonError>;

/// One node of the document tree, as plain values: integers, free-form
/// numeric text, text, arrays, keyed records, and the leaves the core
/// never reads.
#[derive(Debug, PartialEq)]
pub enum JVal {
    Int(i64),
    Num(String),
    Str(String),
    Arr(Vec<JVal>),
    Obj(Vec<(String, JVal)>),
    Bool(bool),
    Null,
}

/// Whether a character is an ascii letter.
pub open spec fn spec_is_alpha(c: char) -> bool {
    (65 <= c as u32 && c as u32 <= 90) || (97 <= c as u32 && c as u32 <= 122)
}

/// Whether a character is an ascii letter or digit.
pub open spec fn spec_is_alnum(c: char) -> bool {
    spec_is_alpha(c) || is_digit_char(c)
}

fn is_alpha(c: char) -> (r: bool)
    ensures
        r == spec_is_alpha(c),
{
    let u = c as u32;
    (65 <= u && u <= 90) || (97 <= u && u <= 122)
}

fn is_alnum(c: char) -> (r: bool)
    ensures
        r == spec_is_alnum(c),
{
    let u = c as u32;
    (65 <= u && u <= 90) || (97 <= u && u <= 122) || (48 <= u && u <= 57)
}

/// The first letter position at or after `i`, or the length.
pub open spec fn spec_letter_pos(s: Seq<char>, i: int) -> int
    decreases s.len() - i,
    when 0 <= i <= s.len()
{
    if i >= s.len() {
        i
    } else if spec_is_alpha(s[i]) {
        i
    } else {
        spec_letter_pos(s, i + 1)
    }
}

proof fn lemma_letter_pos(s: Seq<char>, i: int)
    requires
        0 <= i <= s.len(),
    ensures
        i <= spec_letter_pos(s, i) <= s.len(),
        forall|k: int| i <= k < spec_letter_pos(s, i) ==> !spec_is_alpha(#[trigger] s[k]),
        spec_letter_pos(s, i) < s.len() ==> spec_is_alpha(s[spec_letter_pos(s, i)]),
    decreases s.len() - i,
{
    if i < s.len() && !spec_is_alpha(s[i]) {
        lemma_letter_pos(s, i + 1);
    }
}

/// The two-digit code of a digit pair.
pub open spec fn spec_pair_code(c0: char, c1: char) -> int {
    digit_val(c0) * 10 + digit_val(c1)
}

/// What decoding a decorated token yields: the ordered tile codes, the
/// single role letter, and its even character offset. Each violation is
/// its own failure kind: a non-alphanumeric character or a missing or
/// repeated letter refuse the token, a letter at an odd offset is a
/// distinct failure, and an out-of-domain tile code another.
pub open spec fn spec_parse_decorated(s: Seq<char>) -> Result<
    (Seq<Tile>, char, int),
    TenhouJsonErrorKind,
> {
    if !(forall|k: int| 0 <= k < s.len() ==> spec_is_alnum(#[trigger] s[k])) {
        Err(TenhouJsonErrorKind::InvalidMeld)
    } else {
        let lp = spec_letter_pos(s, 0);
        if lp >= s.len() {
            Err(TenhouJsonErrorKind::InvalidMeld)
        } else if lp % 2 == 1 {
            Err(TenhouJsonErrorKind::InvalidLetterPosition)
        } else {
            let digits = s.remove(lp);
            if !all_digits(digits) {
                Err(TenhouJsonErrorKind::InvalidMeld)
            } else if digits.len() % 2 == 1 {
                Err(TenhouJsonErrorKind::InvalidMeld)
            } else if !(forall|k: int|
                0 <= k < digits.len() / 2 ==> spec_valid_tile(
                    #[trigger] spec_pair_code(digits[2 * k], digits[2 * k + 1]) as u8,
                )) {
                Err(TenhouJsonErrorKind::InvalidTileNumber)
            } else {
                Ok(
                    (
                        Seq::new(
                            digits.len() / 2,
                            |k: int| Tile(spec_pair_code(digits[2 * k], digits[2 * k + 1]) as u8),
                        ),
                        s[lp],
                        lp,
                    ),
                )
            }
        }
    }
}

/// Decodes a decorated token into its tiles, role letter and letter
/// offset.
#[verifier::loop_isolation(false)]
#[verifier::rlimit(100)]
pub fn parse_decorated_tile(s: &str) -> (r: Result<(Vec<Tile>, char, usize), TenhouJsonErrorKind>)
    ensures
        (r matches Ok(p) ==> spec_parse_decorated(s@) matches Ok(q) && p.0@ == q.0 && p.1 == q.1
            && p.2 as int == q.2),
        (r matches Err(k) ==> spec_parse_decorated(s@) == Err::<(Seq<Tile>, char, int),
            TenhouJsonErrorKind,
        >(k)),
{
    let cs = chars_vec(s);
    let n = cs.len();
    let mut i: usize = 0;
    while i < n
        invariant
            n == cs@.len(),
            cs@ == s@,
            i <= n,
            forall|k: int| 0 <= k < i ==> spec_is_alnum(#[trigger] cs@[k]),
        decreases n - i,
    {
        if !is_alnum(cs[i]) {
            return Err(TenhouJsonErrorKind::InvalidMeld);
        }
        i = i + 1;
    }
    // locate the single role letter
    let mut lp: usize = 0;
    while lp < n && !is_alpha(cs[lp])
        invariant
            n == cs@.len(),
            cs@ == s@,
            lp <= n,
            forall|k: int| 0 <= k < lp ==> !spec_is_alpha(#[trigger] cs@[k]),
        decreases n - lp,
    {
        lp = lp + 1;
    }
    proof {
        crate::text::lemma_digit_run_end_bounds(cs@, 0);
        lemma_letter_pos(cs@, 0);
        if lp < n {
            assert(spec_is_alpha(cs@[lp as int]));
        }
        if spec_letter_pos(cs@, 0) < lp {
            assert(!spec_is_alpha(cs@[spec_letter_pos(cs@, 0)]));
        }
        if spec_letter_pos(cs@, 0) > lp {
            assert(lp < n);
        }
        assert(lp as int == spec_letter_pos(cs@, 0));
    }
    if lp >= n {
        return Err(TenhouJsonErrorKind::InvalidMeld);
    }
    if lp % 2 == 1 {
        return Err(TenhouJsonErrorKind::InvalidLetterPosition);
    }
    let letter = cs[lp];
    let ghost digits = cs@.remove(lp as int);
    let mut ds: Vec<char> = Vec::new();
    let mut j: usize = 0;
    while j < n
        invariant
            n == cs@.len(),
            cs@ == s@,
            lp < n,
            j <= n,
            digits == cs@.remove(lp as int),
            ds@ == (if j <= lp {
                cs@.subrange(0, j as int)
            } else {
                digits.subrange(0, j - 1)
            }),
        decreases n - j,
    {
        if j != lp {
            ds.push(cs[j]);
        }
        proof {
            if j + 1 <= lp {
                assert(cs@.subrange(0, j + 1) =~= cs@.subrange(0, j as int).push(cs@[j as int]));
            } else if j == lp {
                assert(digits.subrange(0, j as int) =~= cs@.subrange(0, j as int));
            } else {
                assert(digits.subrange(0, j as int) =~= digits.subrange(0, j - 1).push(
                    digits[j - 1],
                ));
                assert(digits[j - 1] == cs@[j as int]);
            }
        }
        j = j + 1;
    }
    proof {
        assert(ds@ =~= digits);
    }
    let mut t: usize = 0;
    while t < ds.len()
        invariant
            t <= ds@.len(),
            digits == ds@,
            forall|k: int| 0 <= k < t ==> is_digit_char(#[trigger] ds@[k]),
        decreases ds@.len() - t,
    {
        let u = ds[t] as u32;
        if !(48 <= u && u <= 57) {
            proof {
                assert(!is_digit_char(ds@[t as int]));
            }
            return Err(TenhouJsonErrorKind::InvalidMeld);
        }
        t = t + 1;
    }
    if ds.len() % 2 == 1 {
        return Err(TenhouJsonErrorKind::InvalidMeld);
    }
    let mut tiles: Vec<Tile> = Vec::new();
    let mut p: usize = 0;
    while p + 1 < ds.len()
        invariant
            digits == ds@,
            p % 2 == 0,
            p <= ds@.len(),
            ds@.len() % 2 == 0,
            forall|k: int| 0 <= k < ds@.len() ==> is_digit_char(#[trigger] ds@[k]),
            tiles@.len() == p / 2,
            forall|k: int|
                0 <= k < p / 2 ==> spec_valid_tile(
                    #[trigger] spec_pair_code(ds@[2 * k], ds@[2 * k + 1]) as u8,
                ),
            forall|k: int|
                0 <= k < p / 2 ==> #[trigger] tiles@[k] == Tile(
                    spec_pair_code(ds@[2 * k], ds@[2 * k + 1]) as u8,
                ),
        decreases ds@.len() - p,
    {
        let d0 = (ds[p] as u32 - 48) as u8;
        let d1 = (ds[p + 1] as u32 - 48) as u8;
        let code = d0 * 10 + d1;
        match Tile::from_u8(code) {
            Ok(tile) => {
                tiles.push(tile);
                proof {
                    assert(2 * ((p as int) / 2) == p as int);
                }
            }
            Err(_) => {
                proof {
                    assert(!spec_valid_tile(spec_pair_code(ds@[p as int], ds@[p + 1]) as u8));
                    assert(2 * ((p as int) / 2) == p as int);
                }
                return Err(TenhouJsonErrorKind::InvalidTileNumber);
            }
        }
        p = p + 2;
    }
    proof {
        assert(p == ds@.len());
        assert(tiles@ =~= Seq::new(
            digits.len() / 2,
            |k: int| Tile(spec_pair_code(digits[2 * k], digits[2 * k + 1]) as u8),
        ));
    }
    Ok((tiles, letter, lp))
}

/// What an incoming-stream token denotes: a bare code is a plain draw; a
/// decorated token is a run, a triplet or an open quad, the letter offset
/// encoding the source seat for the latter two.
pub open spec fn spec_conv_incoming(v: JVal) -> Result<IncomingTile, TenhouJsonErrorKind> {
    match v {
        JVal::Int(x) => {
            if spec_valid_tile(x as u8) {
                Ok(IncomingTile::Tsumo(Tile(x as u8)))
            } else {
                Err(TenhouJsonErrorKind::InvalidTileNumber)
            }
        },
        JVal::Str(st) => match spec_parse_decorated(st@) {
            Err(k) => Err(k),
            Ok(p) => {
                let (tiles, letter, lp) = p;
                if letter == 'c' {
                    if lp != 0 {
                        Err(TenhouJsonErrorKind::InvalidLetterPosition)
                    } else if tiles.len() < 3 {
                        Err(TenhouJsonErrorKind::InvalidMeld)
                    } else {
                        Ok(IncomingTile::Chii { combination: (tiles[0], tiles[1], tiles[2]) })
                    }
                } else if letter == 'p' {
                    if lp != 0 && lp != 2 && lp != 4 {
                        Err(TenhouJsonErrorKind::InvalidLetterPosition)
                    } else if tiles.len() < 3 {
                        Err(TenhouJsonErrorKind::InvalidMeld)
                    } else {
                        Ok(
                            IncomingTile::Pon {
                                combination: (tiles[0], tiles[1], tiles[2]),
                                dir: if lp == 0 {
                                    Direction::Kamicha
                                } else if lp == 2 {
                                    Direction::Toimen
                                } else {
                                    Direction::Shimocha
                                },
                            },
                        )
                    }
                } else if letter == 'm' {
                    if lp != 0 && lp != 2 && lp != 6 {
                        Err(TenhouJsonErrorKind::InvalidLetterPosition)
                    } else if tiles.len() < 4 {
                        Err(TenhouJsonErrorKind::InvalidMeld)
                    } else {
                        Ok(
                            IncomingTile::Daiminkan {
                                combination: (tiles[0], tiles[1], tiles[2], tiles[3]),
                                dir: if lp == 0 {
                                    Direction::Kamicha
                                } else if lp == 2 {
                                    Direction::Toimen
                                } else {
                                    Direction::Shimocha
                                },
                            },
                        )
                    }
                } else {
                    Err(TenhouJsonErrorKind::InvalidMeld)
                }
            },
        },
        _ => Err(TenhouJsonErrorKind::TypeMismatch),
    }
}

/// Reads an incoming-stream token.
pub fn conv_incoming_tile(v: &JVal) -> (r: TenhouJsonResult<IncomingTile>)
    ensures
        (r matches Ok(t) ==> spec_conv_incoming(*v) == Ok::<IncomingTile, TenhouJsonErrorKind>(t)),
        (r matches Err(e) ==> spec_conv_incoming(*v) == Err::<IncomingTile, TenhouJsonErrorKind>(
            e.kind,
        ) && e.path@ == Seq::<char>::empty()),
{
    match v {
        JVal::Int(x) => {
            let code = #[verifier::truncate] (*x as u8);
            match Tile::from_u8(code) {
                Ok(t) => Ok(IncomingTile::Tsumo(t)),
                Err(_) => Err(TenhouJsonError::new(TenhouJsonErrorKind::InvalidTileNumber)),
            }
        }
        JVal::Str(st) => {
            let parsed = match parse_decorated_tile(st.as_str()) {
                Ok(p) => p,
                Err(k) => {
                    return Err(TenhouJsonError::new(k));
                }
            };
            let (tiles, letter, lp) = parsed;
            if letter == 'c' {
                if lp != 0 {
                    return Err(TenhouJsonError::new(TenhouJsonErrorKind::InvalidLetterPosition));
                }
                if tiles.len() < 3 {
                    return Err(TenhouJsonError::new(TenhouJsonErrorKind::InvalidMeld));
                }
                Ok(IncomingTile::Chii { combination: (tiles[0], tiles[1], tiles[2]) })
            } else if letter == 'p' {
                let dir = if lp == 0 {
                    Direction::Kamicha
                } else if lp == 2 {
                    Direction::Toimen
                } else if lp == 4 {
                    Direction::Shimocha
                } else {
                    return Err(TenhouJsonError::new(TenhouJsonErrorKind::InvalidLetterPosition));
                };
                if tiles.len() < 3 {
                    return Err(TenhouJsonError::new(TenhouJsonErrorKind::InvalidMeld));
                }
                Ok(IncomingTile::Pon { combination: (tiles[0], tiles[1], tiles[2]), dir })
            } else if letter == 'm' {
                let dir = if lp == 0 {
                    Direction::Kamicha
                } else if lp == 2 {
                    Direction::Toimen
                } else if lp == 6 {
                    Direction::Shimocha
                } else {
                    return Err(TenhouJsonError::new(TenhouJsonErrorKind::InvalidLetterPosition));
                };
                if tiles.len() < 4 {
                    return Err(TenhouJsonError::new(TenhouJsonErrorKind::InvalidMeld));
                }
                Ok(
                    IncomingTile::Daiminkan {
                        combination: (tiles[0], tiles[1], tiles[2], tiles[3]),
                        dir,
                    },
                )
            } else {
                Err(TenhouJsonError::new(TenhouJsonErrorKind::InvalidMeld))
            }
        }
        _ => Err(TenhouJsonError::new(TenhouJsonErrorKind::TypeMismatch)),
    }
}

/// What an outgoing-stream token denotes: 60 is a drawn-tile discard, 0
/// the filler placeholder, a bare code a discard from the hand; "r60" is
/// a riichi on the drawn tile, and a decorated token a riichi discard, a
/// closed quad, or an added quad.
pub open spec fn spec_conv_outgoing(v: JVal) -> Result<OutgoingTile, TenhouJsonErrorKind> {
    match v {
        JVal::Int(x) => {
            if x as u8 == 60 {
                Ok(OutgoingTile::Tsumogiri)
            } else if x as u8 == 0 {
                Ok(OutgoingTile::Dummy)
            } else if spec_valid_tile(x as u8) {
                Ok(OutgoingTile::Discard(Tile(x as u8)))
            } else {
                Err(TenhouJsonErrorKind::InvalidTileNumber)
            }
        },
        JVal::Str(st) => {
            if st@ == "r60"@ {
                Ok(OutgoingTile::TsumogiriRiichi)
            } else {
                match spec_parse_decorated(st@) {
                    Err(k) => Err(k),
                    Ok(p) => {
                        let (tiles, letter, lp) = p;
                        if letter == 'r' {
                            if tiles.len() != 1 {
                                Err(TenhouJsonErrorKind::InvalidRiichi)
                            } else {
                                Ok(OutgoingTile::Riichi(tiles[0]))
                            }
                        } else if letter == 'a' {
                            if tiles.len() != 4 {
                                Err(TenhouJsonErrorKind::InvalidAnkan)
                            } else {
                                Ok(OutgoingTile::Ankan(tiles[3]))
                            }
                        } else if letter == 'k' {
                            if tiles.len() != 4 {
                                Err(TenhouJsonErrorKind::InvalidKakan)
                            } else if lp != 0 && lp != 2 && lp != 4 {
                                Err(TenhouJsonErrorKind::InvalidLetterPosition)
                            } else {
                                let ai = lp / 2;
                                let comb = tiles.remove(ai);
                                Ok(
                                    OutgoingTile::Kakan {
                                        combination: (comb[0], comb[1], comb[2]),
                                        dir: if lp == 0 {
                                            Direction::Kamicha
                                        } else if lp == 2 {
                                            Direction::Toimen
                                        } else {
                                            Direction::Shimocha
                                        },
                                        added: tiles[ai],
                                    },
                                )
                            }
                        } else {
                            Err(TenhouJsonErrorKind::InvalidDecoration)
                        }
                    },
                }
            }
        },
        _ => Err(TenhouJsonErrorKind::TypeMismatch),
    }
}

/// Reads an outgoing-stream token. The added tile of an added quad sits
/// right after its letter; the kept three stay in order.
pub fn conv_outgoing_tile(v: &JVal) -> (r: TenhouJsonResult<OutgoingTile>)
    ensures
        (r matches Ok(t) ==> spec_conv_outgoing(*v) == Ok::<OutgoingTile, TenhouJsonErrorKind>(t)),
        (r matches Err(e) ==> spec_conv_outgoing(*v) == Err::<OutgoingTile, TenhouJsonErrorKind>(
            e.kind,
        ) && e.path@ == Seq::<char>::empty()),
{
    match v {
        JVal::Int(x) => {
            let code = #[verifier::truncate] (*x as u8);
            if code == 60 {
                Ok(OutgoingTile::Tsumogiri)
            } else if code == 0 {
                Ok(OutgoingTile::Dummy)
            } else {
                match Tile::from_u8(code) {
                    Ok(t) => Ok(OutgoingTile::Discard(t)),
                    Err(_) => Err(TenhouJsonError::new(TenhouJsonErrorKind::InvalidTileNumber)),
                }
            }
        }
        JVal::Str(st) => {
            proof {
                reveal_strlit("r60");
            }
            if st.eq(&String::from_str("r60")) {
                return Ok(OutgoingTile::TsumogiriRiichi);
            }
            let parsed = match parse_decorated_tile(st.as_str()) {
                Ok(p) => p,
                Err(k) => {
                    return Err(TenhouJsonError::new(k));
                }
            };
            let (tiles, letter, lp) = parsed;
            if letter == 'r' {
                if tiles.len() != 1 {
                    return Err(TenhouJsonError::new(TenhouJsonErrorKind::InvalidRiichi));
                }
                Ok(OutgoingTile::Riichi(tiles[0]))
            } else if letter == 'a' {
                if tiles.len() != 4 {
                    return Err(TenhouJsonError::new(TenhouJsonErrorKind::InvalidAnkan));
                }
                Ok(OutgoingTile::Ankan(tiles[3]))
            } else if letter == 'k' {
                if tiles.len() != 4 {
                    return Err(TenhouJsonError::new(TenhouJsonErrorKind::InvalidKakan));
                }
                let dir = if lp == 0 {
                    Direction::Kamicha
                } else if lp == 2 {
                    Direction::Toimen
                } else if lp == 4 {
                    Direction::Shimocha
                } else {
                    return Err(TenhouJsonError::new(TenhouJsonErrorKind::InvalidLetterPosition));
                };
                let ai = lp / 2;
                let added = tiles[ai];
                let mut comb = tiles;
                comb.remove(ai);
                proof {
                    let q = spec_parse_decorated(st@)->Ok_0;
                    assert(comb@ =~= q.0.remove(ai as int));
                }
                Ok(OutgoingTile::Kakan { combination: (comb[0], comb[1], comb[2]), dir, added })
            } else {
                Err(TenhouJsonError::new(TenhouJsonErrorKind::InvalidDecoration))
            }
        }
        _ => Err(TenhouJsonError::new(TenhouJsonErrorKind::TypeMismatch)),
    }
}

/// Prefixes a failure's location tag with a field name.
fn err_context(e: TenhouJsonError, key: &str) -> (r: TenhouJsonError)
    ensures
        r.kind == e.kind,
        r.path@ == key@ + "."@ + e.path@,
{
    proof {
        reveal_strlit(".");
    }
    let mut path = key.to_owned();
    path.append(".");
    path.append(e.path.as_str());
    proof {
        assert(path@ =~= key@ + "."@ + e.path@);
    }
    TenhouJsonError { kind: e.kind, path }
}

/// The integer a node holds, if it is an integer node.
pub open spec fn spec_conv_i64(v: JVal) -> Result<int, TenhouJsonErrorKind> {
    match v {
        JVal::Int(x) => Ok(x as int),
        _ => Err(TenhouJsonErrorKind::TypeMismatch),
    }
}

fn conv_i64(v: &JVal) -> (r: TenhouJsonResult<i64>)
    ensures
        (r matches Ok(x) ==> spec_conv_i64(*v) == Ok::<int, TenhouJsonErrorKind>(x as int)),
        (r matches Err(e) ==> spec_conv_i64(*v) is Err && e.kind == TenhouJsonErrorKind::TypeMismatch
            && e.path@ == Seq::<char>::empty()),
        (r is Ok <==> spec_conv_i64(*v) is Ok),
{
    match v {
        JVal::Int(x) => Ok(*x),
        _ => Err(TenhouJsonError::new(TenhouJsonErrorKind::TypeMismatch)),
    }
}

fn conv_u8(v: &JVal) -> (r: TenhouJsonResult<u8>)
    ensures
        (r matches Ok(x) ==> (spec_conv_i64(*v) matches Ok(y) && x == y as u8)),
        (r is Ok <==> spec_conv_i64(*v) is Ok),
{
    let x = conv_i64(v)?;
    Ok(#[verifier::truncate] (x as u8))
}

fn conv_i8(v: &JVal) -> (r: TenhouJsonResult<i8>)
    ensures
        (r matches Ok(x) ==> (spec_conv_i64(*v) matches Ok(y) && x == y as i8)),
        (r is Ok <==> spec_conv_i64(*v) is Ok),
{
    let x = conv_i64(v)?;
    Ok(#[verifier::truncate] (x as i8))
}

fn conv_u32(v: &JVal) -> (r: TenhouJsonResult<u32>)
    ensures
        (r matches Ok(x) ==> (spec_conv_i64(*v) matches Ok(y) && x == y as u32)),
        (r is Ok <==> spec_conv_i64(*v) is Ok),
{
    let x = conv_i64(v)?;
    Ok(#[verifier::truncate] (x as u32))
}

fn conv_i32(v: &JVal) -> (r: TenhouJsonResult<i32>)
    ensures
        (r matches Ok(x) ==> (spec_conv_i64(*v) matches Ok(y) && x == y as i32)),
        (r is Ok <==> spec_conv_i64(*v) is Ok),
{
    let x = conv_i64(v)?;
    Ok(#[verifier::truncate] (x as i32))
}

/// The numeric text a node carries: the decimal text of an integer node,
/// or the free-form text of a numeric-text node.
pub open spec fn spec_conv_num_text(v: JVal) -> Result<Seq<char>, TenhouJsonErrorKind> {
    match v {
        JVal::Int(x) => Ok(crate::text::sint_digits(x as int)),
        JVal::Num(s) => Ok(s@),
        _ => Err(TenhouJsonErrorKind::TypeMismatch),
    }
}

fn conv_num_text(v: &JVal) -> (r: TenhouJsonResult<String>)
    ensures
        (r matches Ok(s) ==> spec_conv_num_text(*v) == Ok::<Seq<char>, TenhouJsonErrorKind>(s@)),
        (r is Ok <==> spec_conv_num_text(*v) is Ok),
{
    match v {
        JVal::Int(x) => {
            let mut s = String::new();
            crate::text::append_i64(&mut s, *x);
            Ok(s)
        }
        JVal::Num(s) => Ok(s.clone()),
        _ => Err(TenhouJsonError::new(TenhouJsonErrorKind::TypeMismatch)),
    }
}

fn conv_string(v: &JVal) -> (r: TenhouJsonResult<String>)
    ensures
        (r matches Ok(s) ==> *v matches JVal::Str(s2) && s == s2),
        (r is Ok <==> *v matches JVal::Str(..)),
{
    match v {
        JVal::Str(s) => Ok(s.clone()),
        _ => Err(TenhouJsonError::new(TenhouJsonErrorKind::TypeMismatch)),
    }
}

/// The value of the first field with the given key, if any.
pub open spec fn spec_jfield(fields: Seq<(String, JVal)>, name: Seq<char>) -> Option<JVal>
    decreases fields.len(),
{
    if fields.len() == 0 {
        None
    } else if fields[0].0@ == name {
        Some(fields[0].1)
    } else {
        spec_jfield(fields.drop_first(), name)
    }
}

pub open spec fn jfield_of(v: JVal, name: Seq<char>) -> Option<JVal> {
    match v {
        JVal::Obj(fields) => spec_jfield(fields@, name),
        _ => None,
    }
}

fn get_field<'a>(v: &'a JVal, key: &str) -> (r: TenhouJsonResult<&'a JVal>)
    ensures
        (r matches Ok(f) ==> jfield_of(*v, key@) == Some(*f)),
        (r is Ok <==> jfield_of(*v, key@) is Some),
        (r matches Err(e) ==> e.kind == TenhouJsonErrorKind::MissingField),
{
    match v {
        JVal::Obj(fields) => {
            let name = key.to_owned();
            let mut i: usize = 0;
            proof {
                assert(fields@.skip(0) =~= fields@);
            }
            loop
                invariant
                    i <= fields@.len(),
                    name@ == key@,
                    *v == JVal::Obj(*fields),
                    spec_jfield(fields@, key@) == spec_jfield(fields@.skip(i as int), key@),
                decreases fields@.len() - i,
            {
                if i >= fields.len() {
                    return Err(TenhouJsonError::new(TenhouJsonErrorKind::MissingField));
                }
                proof {
                    assert(fields@.skip(i as int)[0] == fields@[i as int]);
                }
                if fields[i].0.eq(&name) {
                    return Ok(&fields[i].1);
                }
                proof {
                    assert(fields@.skip(i as int).drop_first() =~= fields@.skip(i + 1));
                }
                i = i + 1;
            }
        }
        _ => Err(TenhouJsonError::new(TenhouJsonErrorKind::MissingField)),
    }
}

/// The tile a node names, if it is an integer in the tile domain.
pub open spec fn spec_conv_tile(v: JVal) -> Result<Tile, TenhouJsonErrorKind> {
    match spec_conv_i64(v) {
        Err(k) => Err(k),
        Ok(x) => if spec_valid_tile(x as u8) {
            Ok(Tile(x as u8))
        } else {
            Err(TenhouJsonErrorKind::InvalidTileNumber)
        },
    }
}

fn conv_tile(v: &JVal) -> (r: TenhouJsonResult<Tile>)
    ensures
        (r matches Ok(t) ==> spec_conv_tile(*v) == Ok::<Tile, TenhouJsonErrorKind>(t)),
        (r is Ok <==> spec_conv_tile(*v) is Ok),
{
    let code = conv_u8(v)?;
    match Tile::from_u8(code) {
        Ok(t) => Ok(t),
        Err(_) => Err(TenhouJsonError::new(TenhouJsonErrorKind::InvalidTileNumber)),
    }
}

/// Whether every entry of an array reads as a tile.
pub open spec fn spec_tiles_arr_ok(v: JVal) -> bool {
    v matches JVal::Arr(a) && (forall|k: int|
        0 <= k < a@.len() ==> spec_conv_tile(#[trigger] a@[k]) is Ok)
}

/// The tiles of such an array.
pub open spec fn spec_tiles_arr(v: JVal) -> Seq<Tile> {
    match v {
        JVal::Arr(a) => Seq::new(a@.len(), |k: int| spec_conv_tile(a@[k])->Ok_0),
        _ => Seq::empty(),
    }
}

fn conv_tiles(v: &JVal) -> (r: TenhouJsonResult<Vec<Tile>>)
    ensures
        (r matches Ok(ts) ==> spec_tiles_arr_ok(*v) && ts@ == spec_tiles_arr(*v)),
        (r is Ok <==> spec_tiles_arr_ok(*v)),
{
    match v {
        JVal::Arr(a) => {
            let mut out: Vec<Tile> = Vec::new();
            let mut i: usize = 0;
            while i < a.len()
                invariant
                    i <= a@.len(),
                    *v == JVal::Arr(*a),
                    out@.len() == i,
                    forall|k: int| 0 <= k < i ==> spec_conv_tile(#[trigger] a@[k]) is Ok,
                    forall|k: int| 0 <= k < i ==> #[trigger] out@[k] == spec_conv_tile(a@[k])->Ok_0,
                decreases a@.len() - i,
            {
                match conv_tile(&a[i]) {
                    Ok(t) => {
                        out.push(t);
                    }
                    Err(e) => {
                        proof {
                            assert(spec_conv_tile(a@[i as int]) is Err);
                        }
                        return Err(e);
                    }
                }
                i = i + 1;
            }
            proof {
                assert(out@ =~= spec_tiles_arr(*v));
            }
            Ok(out)
        }
        _ => Err(TenhouJsonError::new(TenhouJsonErrorKind::TypeMismatch)),
    }
}

/// The yaku that a display name denotes, if any, in table order.
pub open spec fn spec_yaku_from_text(s: Seq<char>) -> Option<Yaku> {
    if s == "門前清自摸和"@ {
        Some(Yaku::MenzenTsumo)
    } else if s == "立直"@ {
        Some(Yaku::Riichi)
    } else if s == "一発"@ {
        Some(Yaku::Ippatsu)
    } else if s == "槍槓"@ {
        Some(Yaku::Chankan)
    } else if s == "嶺上開花"@ {
        Some(Yaku::Rinshankaihou)
    } else if s == "海底摸月"@ {
        Some(Yaku::HaiteiTsumo)
    } else if s == "河底撈魚"@ {
        Some(Yaku::HouteiRon)
    } else if s == "平和"@ {
        Some(Yaku::Pinfu)
    } else if s == "断幺九"@ {
        Some(Yaku::Tanyao)
    } else if s == "一盃口"@ {
        Some(Yaku::Iipeikou)
    } else if s == "自風 東"@ {
        Some(Yaku::PlayerWindTon)
    } else if s == "自風 南"@ {
        Some(Yaku::PlayerWindNan)
    } else if s == "自風 西"@ {
        Some(Yaku::PlayerWindSha)
    } else if s == "自風 北"@ {
        Some(Yaku::PlayerWindPei)
    } else if s == "場風 東"@ {
        Some(Yaku::FieldWindTon)
    } else if s == "場風 南"@ {
        Some(Yaku::FieldWindNan)
    } else if s == "場風 西"@ {
        Some(Yaku::FieldWindSha)
    } else if s == "場風 北"@ {
        Some(Yaku::FieldWindPei)
    } else if s == "役牌 白"@ {
        Some(Yaku::YakuhaiHaku)
    } else if s == "役牌 發"@ {
        Some(Yaku::YakuhaiHatsu)
    } else if s == "役牌 中"@ {
        Some(Yaku::YakuhaiChun)
    } else if s == "両立直"@ {
        Some(Yaku::DoubleRiichi)
    } else if s == "七対子"@ {
        Some(Yaku::Chiitoitsu)
    } else if s == "混全帯幺九"@ {
        Some(Yaku::Chanta)
    } else if s == "一気通貫"@ {
        Some(Yaku::Ikkitsuukan)
    } else if s == "三色同順"@ {
        Some(Yaku::SansyokuDoujun)
    } else if s == "三色同刻"@ {
        Some(Yaku::SanshokuDoukou)
    } else if s == "三槓子"@ {
        Some(Yaku::Sankantsu)
    } else if s == "対々和"@ {
        Some(Yaku::Toitoi)
    } else if s == "三暗刻"@ {
        Some(Yaku::Sanannkou)
    } else if s == "小三元"@ {
        Some(Yaku::Shousangen)
    } else if s == "混老頭"@ {
        Some(Yaku::Honroutou)
    } else if s == "二盃口"@ {
        Some(Yaku::Ryanpeikou)
    } else if s == "純全帯幺九"@ {
        Some(Yaku::Junchan)
    } else if s == "混一色"@ {
        Some(Yaku::Honiisou)
    } else if s == "清一色"@ {
        Some(Yaku::Chiniisou)
    } else if s == "人和"@ {
        Some(Yaku::Renhou)
    } else if s == "天和"@ {
        Some(Yaku::Tenhou)
    } else if s == "地和"@ {
        Some(Yaku::Chiihou)
    } else if s == "大三元"@ {
        Some(Yaku::Daisangen)
    } else if s == "四暗刻"@ {
        Some(Yaku::Suuankou)
    } else if s == "四暗刻単騎"@ {
        Some(Yaku::SuuankouTanki)
    } else if s == "字一色"@ {
        Some(Yaku::Tsuuiisou)
    } else if s == "緑一色"@ {
        Some(Yaku::Ryuuiisou)
    } else if s == "清老頭"@ {
        Some(Yaku::Chinroutou)
    } else if s == "九蓮宝燈"@ {
        Some(Yaku::Tyuurenpoutou)
    } else if s == "純正九蓮宝燈"@ {
        Some(Yaku::Tyuurenpoutou9)
    } else if s == "国士無双"@ {
        Some(Yaku::Kokushimusou)
    } else if s == "国士無双１３面"@ {
        Some(Yaku::Kokushimusou13)
    } else if s == "大四喜"@ {
        Some(Yaku::Daisuushii)
    } else if s == "小四喜"@ {
        Some(Yaku::Syousuushii)
    } else if s == "四槓子"@ {
        Some(Yaku::Suukantsu)
    } else if s == "ドラ"@ {
        Some(Yaku::Dora)
    } else if s == "裏ドラ"@ {
        Some(Yaku::UraDora)
    } else if s == "赤ドラ"@ {
        Some(Yaku::AkaDora)
    } else {
        None
    }
}

/// The yaku named by a text.
pub fn yaku_from_text(s: &String) -> (r: Option<Yaku>)
    ensures
        r == spec_yaku_from_text(s@),
{
    if s.eq(&String::from_str("門前清自摸和")) {
        Some(Yaku::MenzenTsumo)
    } else if s.eq(&String::from_str("立直")) {
        Some(Yaku::Riichi)
    } else if s.eq(&String::from_str("一発")) {
        Some(Yaku::Ippatsu)
    } else if s.eq(&String::from_str("槍槓")) {
        Some(Yaku::Chankan)
    } else if s.eq(&String::from_str("嶺上開花")) {
        Some(Yaku::Rinshankaihou)
    } else if s.eq(&String::from_str("海底摸月")) {
        Some(Yaku::HaiteiTsumo)
    } else if s.eq(&String::from_str("河底撈魚")) {
        Some(Yaku::HouteiRon)
    } else if s.eq(&String::from_str("平和")) {
        Some(Yaku::Pinfu)
    } else if s.eq(&String::from_str("断幺九")) {
        Some(Yaku::Tanyao)
    } else if s.eq(&String::from_str("一盃口")) {
        Some(Yaku::Iipeikou)
    } else if s.eq(&String::from_str("自風 東")) {
        Some(Yaku::PlayerWindTon)
    } else if s.eq(&String::from_str("自風 南")) {
        Some(Yaku::PlayerWindNan)
    } else if s.eq(&String::from_str("自風 西")) {
        Some(Yaku::PlayerWindSha)
    } else if s.eq(&String::from_str("自風 北")) {
        Some(Yaku::PlayerWindPei)
    } else if s.eq(&String::from_str("場風 東")) {
        Some(Yaku::FieldWindTon)
    } else if s.eq(&String::from_str("場風 南")) {
        Some(Yaku::FieldWindNan)
    } else if s.eq(&String::from_str("場風 西")) {
        Some(Yaku::FieldWindSha)
    } else if s.eq(&String::from_str("場風 北")) {
        Some(Yaku::FieldWindPei)
    } else if s.eq(&String::from_str("役牌 白")) {
        Some(Yaku::YakuhaiHaku)
    } else if s.eq(&String::from_str("役牌 發")) {
        Some(Yaku::YakuhaiHatsu)
    } else if s.eq(&String::from_str("役牌 中")) {
        Some(Yaku::YakuhaiChun)
    } else if s.eq(&String::from_str("両立直")) {
        Some(Yaku::DoubleRiichi)
    } else if s.eq(&String::from_str("七対子")) {
        Some(Yaku::Chiitoitsu)
    } else if s.eq(&String::from_str("混全帯幺九")) {
        Some(Yaku::Chanta)
    } else if s.eq(&String::from_str("一気通貫")) {
        Some(Yaku::Ikkitsuukan)
    } else if s.eq(&String::from_str("三色同順")) {
        Some(Yaku::SansyokuDoujun)
    } else if s.eq(&String::from_str("三色同刻")) {
        Some(Yaku::SanshokuDoukou)
    } else if s.eq(&String::from_str("三槓子")) {
        Some(Yaku::Sankantsu)
    } else if s.eq(&String::from_str("対々和")) {
        Some(Yaku::Toitoi)
    } else if s.eq(&String::from_str("三暗刻")) {
        Some(Yaku::Sanannkou)
    } else if s.eq(&String::from_str("小三元")) {
        Some(Yaku::Shousangen)
    } else if s.eq(&String::from_str("混老頭")) {
        Some(Yaku::Honroutou)
    } else if s.eq(&String::from_str("二盃口")) {
        Some(Yaku::Ryanpeikou)
    } else if s.eq(&String::from_str("純全帯幺九")) {
        Some(Yaku::Junchan)
    } else if s.eq(&String::from_str("混一色")) {
        Some(Yaku::Honiisou)
    } else if s.eq(&String::from_str("清一色")) {
        Some(Yaku::Chiniisou)
    } else if s.eq(&String::from_str("人和")) {
        Some(Yaku::Renhou)
    } else if s.eq(&String::from_str("天和")) {
        Some(Yaku::Tenhou)
    } else if s.eq(&String::from_str("地和")) {
        Some(Yaku::Chiihou)
    } else if s.eq(&String::from_str("大三元")) {
        Some(Yaku::Daisangen)
    } else if s.eq(&String::from_str("四暗刻")) {
        Some(Yaku::Suuankou)
    } else if s.eq(&String::from_str("四暗刻単騎")) {
        Some(Yaku::SuuankouTanki)
    } else if s.eq(&String::from_str("字一色")) {
        Some(Yaku::Tsuuiisou)
    } else if s.eq(&String::from_str("緑一色")) {
        Some(Yaku::Ryuuiisou)
    } else if s.eq(&String::from_str("清老頭")) {
        Some(Yaku::Chinroutou)
    } else if s.eq(&String::from_str("九蓮宝燈")) {
        Some(Yaku::Tyuurenpoutou)
    } else if s.eq(&String::from_str("純正九蓮宝燈")) {
        Some(Yaku::Tyuurenpoutou9)
    } else if s.eq(&String::from_str("国士無双")) {
        Some(Yaku::Kokushimusou)
    } else if s.eq(&String::from_str("国士無双１３面")) {
        Some(Yaku::Kokushimusou13)
    } else if s.eq(&String::from_str("大四喜")) {
        Some(Yaku::Daisuushii)
    } else if s.eq(&String::from_str("小四喜")) {
        Some(Yaku::Syousuushii)
    } else if s.eq(&String::from_str("四槓子")) {
        Some(Yaku::Suukantsu)
    } else if s.eq(&String::from_str("ドラ")) {
        Some(Yaku::Dora)
    } else if s.eq(&String::from_str("裏ドラ")) {
        Some(Yaku::UraDora)
    } else if s.eq(&String::from_str("赤ドラ")) {
        Some(Yaku::AkaDora)
    } else {
        None
    }
}

/// The draw reason that a display word denotes, if any.
pub open spec fn spec_reason_from_text(s: Seq<char>) -> Option<ExtraRyuukyokuReason> {
    if s == "流局"@ {
        Some(ExtraRyuukyokuReason::Ryuukyoku)
    } else if s == "九種九牌"@ {
        Some(ExtraRyuukyokuReason::KyuusyuKyuuhai)
    } else if s == "四家立直"@ {
        Some(ExtraRyuukyokuReason::SuuchaRiichi)
    } else if s == "三家和了"@ {
        Some(ExtraRyuukyokuReason::SanchaHoura)
    } else if s == "四槓散了"@ {
        Some(ExtraRyuukyokuReason::SuukanSanra)
    } else if s == "四風連打"@ {
        Some(ExtraRyuukyokuReason::SuufuuRenda)
    } else if s == "流し満貫"@ {
        Some(ExtraRyuukyokuReason::NagashiMangan)
    } else if s == "全員聴牌"@ {
        Some(ExtraRyuukyokuReason::TenpaiEverybody)
    } else if s == "全員不聴"@ {
        Some(ExtraRyuukyokuReason::TenpaiNobody)
    } else {
        None
    }
}

/// The draw reason named by a text.
pub fn reason_from_text(s: &String) -> (r: Option<ExtraRyuukyokuReason>)
    ensures
        r == spec_reason_from_text(s@),
{
    if s.eq(&String::from_str("流局")) {
        Some(ExtraRyuukyokuReason::Ryuukyoku)
    } else if s.eq(&String::from_str("九種九牌")) {
        Some(ExtraRyuukyokuReason::KyuusyuKyuuhai)
    } else if s.eq(&String::from_str("四家立直")) {
        Some(ExtraRyuukyokuReason::SuuchaRiichi)
    } else if s.eq(&String::from_str("三家和了")) {
        Some(ExtraRyuukyokuReason::SanchaHoura)
    } else if s.eq(&String::from_str("四槓散了")) {
        Some(ExtraRyuukyokuReason::SuukanSanra)
    } else if s.eq(&String::from_str("四風連打")) {
        Some(ExtraRyuukyokuReason::SuufuuRenda)
    } else if s.eq(&String::from_str("流し満貫")) {
        Some(ExtraRyuukyokuReason::NagashiMangan)
    } else if s.eq(&String::from_str("全員聴牌")) {
        Some(ExtraRyuukyokuReason::TenpaiEverybody)
    } else if s.eq(&String::from_str("全員不聴")) {
        Some(ExtraRyuukyokuReason::TenpaiNobody)
    } else {
        None
    }
}

/// The text without its trailing copies of one character.
pub open spec fn spec_strip_trailing(s: Seq<char>, c: char) -> Seq<char>
    decreases s.len(),
{
    if s.len() > 0 && s.last() == c {
        spec_strip_trailing(s.drop_last(), c)
    } else {
        s
    }
}

/// The level that a text denotes: the limit word, or a han count that
/// may carry trailing level marks.
pub open spec fn spec_level_from_text(s: Seq<char>) -> Option<YakuLevel> {
    if s == "役満"@ {
        Some(YakuLevel::Yakuman(1))
    } else {
        match crate::text::spec_parse_unsigned(spec_strip_trailing(s, '飜'), 255) {
            Some(x) => Some(YakuLevel::Normal(x as u8)),
            None => None,
        }
    }
}

/// The level named by a text.
pub fn level_from_text(s: &String) -> (r: Option<YakuLevel>)
    ensures
        r == spec_level_from_text(s@),
{
    proof {
        reveal_strlit("役満");
    }
    if s.eq(&String::from_str("役満")) {
        return Some(YakuLevel::Yakuman(1));
    }
    let mut cs = chars_vec(s.as_str());
    let ghost orig = cs@;
    loop
        invariant_except_break
            spec_strip_trailing(orig, '飜') == spec_strip_trailing(cs@, '飜'),
        ensures
            cs@ == spec_strip_trailing(orig, '飜'),
        decreases cs@.len(),
    {
        let n = cs.len();
        if n == 0 {
            proof {
                assert(spec_strip_trailing(cs@, '飜') == cs@);
            }
            break;
        }
        if cs[n - 1] != '飜' {
            proof {
                assert(cs@.last() == cs@[n - 1]);
                assert(spec_strip_trailing(cs@, '飜') == cs@);
            }
            break;
        }
        let ghost before = cs@;
        cs.pop();
        proof {
            assert(cs@ =~= before.drop_last());
            assert(before.last() == '飜');
        }
    }
    proof {
        assert(cs@.subrange(0, cs@.len() as int) =~= cs@);
    }
    match crate::text::parse_unsigned_chars(&cs, 0, 255) {
        Some(x) => Some(YakuLevel::Normal(x as u8)),
        None => None,
    }
}

/// The first position at or after `i` holding the given character, or
/// the length.
pub open spec fn spec_char_pos(s: Seq<char>, i: int, c: char) -> int
    decreases s.len() - i,
    when 0 <= i <= s.len()
{
    if i >= s.len() {
        i
    } else if s[i] == c {
        i
    } else {
        spec_char_pos(s, i + 1, c)
    }
}

fn char_pos(cs: &Vec<char>, c: char) -> (r: usize)
    ensures
        r as int == spec_char_pos(cs@, 0, c),
        r <= cs@.len(),
{
    let mut i: usize = 0;
    while i < cs.len() && cs[i] != c
        invariant
            i <= cs@.len(),
            spec_char_pos(cs@, 0, c) == spec_char_pos(cs@, i as int, c),
        decreases cs@.len() - i,
    {
        i = i + 1;
    }
    proof {
        if i < cs@.len() {
            assert(spec_char_pos(cs@, i as int, c) == i);
        }
    }
    i
}

/// The yaku-with-level that a text denotes: a name, then a level in
/// parentheses; anything after the closing parenthesis is ignored.
pub open spec fn spec_yaku_pair_from_text(s: Seq<char>) -> Option<YakuPair> {
    let p1 = spec_char_pos(s, 0, '(');
    let p2 = spec_char_pos(s, 0, ')');
    if p1 >= s.len() || p2 >= s.len() || p2 < p1 + 1 {
        None
    } else {
        match spec_yaku_from_text(s.subrange(0, p1)) {
            None => None,
            Some(y) => match spec_level_from_text(s.subrange(p1 + 1, p2)) {
                None => None,
                Some(l) => Some(YakuPair { yaku: y, level: l }),
            },
        }
    }
}

fn sub_string(cs: &Vec<char>, a: usize, b: usize) -> (r: String)
    requires
        a <= b <= cs@.len(),
    ensures
        r@ == cs@.subrange(a as int, b as int),
{
    let mut out: Vec<char> = Vec::new();
    let mut i: usize = a;
    while i < b
        invariant
            a <= i <= b <= cs@.len(),
            out@ == cs@.subrange(a as int, i as int),
        decreases b - i,
    {
        out.push(cs[i]);
        proof {
            assert(cs@.subrange(a as int, i + 1) =~= cs@.subrange(a as int, i as int).push(
                cs@[i as int],
            ));
        }
        i = i + 1;
    }
    crate::text::chars_to_string(&out)
}

/// The yaku-with-level named by a text.
pub fn yaku_pair_from_text(s: &String) -> (r: Option<YakuPair>)
    ensures
        r == spec_yaku_pair_from_text(s@),
{
    let cs = chars_vec(s.as_str());
    let p1 = char_pos(&cs, '(');
    let p2 = char_pos(&cs, ')');
    if p1 >= cs.len() || p2 >= cs.len() || p2 < p1 + 1 {
        return None;
    }
    let name = sub_string(&cs, 0, p1);
    let level_text = sub_string(&cs, p1 + 1, p2);
    match yaku_from_text(&name) {
        None => None,
        Some(y) => match level_from_text(&level_text) {
            None => None,
            Some(l) => Some(YakuPair { yaku: y, level: l }),
        },
    }
}

/// Whether every entry of an array reads as a score.
pub open spec fn spec_i32_arr_ok(v: JVal) -> bool {
    v matches JVal::Arr(a) && (forall|k: int|
        0 <= k < a@.len() ==> spec_conv_i64(#[trigger] a@[k]) is Ok)
}

/// The scores of such an array, truncated to machine width.
pub open spec fn spec_i32_arr(v: JVal) -> Seq<i32> {
    match v {
        JVal::Arr(a) => Seq::new(a@.len(), |k: int| spec_conv_i64(a@[k])->Ok_0 as i32),
        _ => Seq::empty(),
    }
}

fn conv_i32_array(v: &JVal) -> (r: TenhouJsonResult<Vec<i32>>)
    ensures
        (r matches Ok(xs) ==> spec_i32_arr_ok(*v) && xs@ == spec_i32_arr(*v)),
        (r is Ok <==> spec_i32_arr_ok(*v)),
{
    match v {
        JVal::Arr(a) => {
            let mut out: Vec<i32> = Vec::new();
            let mut i: usize = 0;
            while i < a.len()
                invariant
                    i <= a@.len(),
                    *v == JVal::Arr(*a),
                    out@.len() == i,
                    forall|k: int| 0 <= k < i ==> spec_conv_i64(#[trigger] a@[k]) is Ok,
                    forall|k: int|
                        0 <= k < i ==> #[trigger] out@[k] == spec_conv_i64(a@[k])->Ok_0 as i32,
                decreases a@.len() - i,
            {
                match conv_i32(&a[i]) {
                    Ok(x) => {
                        out.push(x);
                    }
                    Err(e) => {
                        proof {
                            assert(spec_conv_i64(a@[i as int]) is Err);
                        }
                        return Err(err_context_index(e, i));
                    }
                }
                i = i + 1;
            }
            proof {
                assert(out@ =~= spec_i32_arr(*v));
            }
            Ok(out)
        }
        _ => Err(TenhouJsonError::new(TenhouJsonErrorKind::TypeMismatch)),
    }
}

/// Prefixes a failure's location tag with an array index.
fn err_context_index(e: TenhouJsonError, i: usize) -> (r: TenhouJsonError)
    ensures
        r.kind == e.kind,
{
    proof {
        reveal_strlit("[");
        reveal_strlit("]");
        reveal_strlit(".");
    }
    let mut path = String::from_str("[");
    crate::text::append_u32(&mut path, i as u32);
    path.append("]");
    path.append(".");
    path.append(e.path.as_str());
    TenhouJsonError { kind: e.kind, path }
}

/// Whether every entry of an array carries numeric text.
pub open spec fn spec_num_arr_ok(v: JVal) -> bool {
    v matches JVal::Arr(a) && (forall|k: int|
        0 <= k < a@.len() ==> spec_conv_num_text(#[trigger] a@[k]) is Ok)
}

/// The numeric texts of such an array.
pub open spec fn spec_num_arr(v: JVal) -> Seq<Seq<char>> {
    match v {
        JVal::Arr(a) => Seq::new(a@.len(), |k: int| spec_conv_num_text(a@[k])->Ok_0),
        _ => Seq::empty(),
    }
}

fn conv_num_array(v: &JVal) -> (r: TenhouJsonResult<Vec<String>>)
    ensures
        (r matches Ok(xs) ==> spec_num_arr_ok(*v) && xs@.map_values(|x: String| x@)
            == spec_num_arr(*v)),
        (r is Ok <==> spec_num_arr_ok(*v)),
{
    match v {
        JVal::Arr(a) => {
            let mut out: Vec<String> = Vec::new();
            let mut i: usize = 0;
            while i < a.len()
                invariant
                    i <= a@.len(),
                    *v == JVal::Arr(*a),
                    out@.len() == i,
                    forall|k: int| 0 <= k < i ==> spec_conv_num_text(#[trigger] a@[k]) is Ok,
                    forall|k: int|
                        0 <= k < i ==> #[trigger] out@[k]@ == spec_conv_num_text(a@[k])->Ok_0,
                decreases a@.len() - i,
            {
                match conv_num_text(&a[i]) {
                    Ok(x) => {
                        out.push(x);
                    }
                    Err(e) => {
                        proof {
                            assert(spec_conv_num_text(a@[i as int]) is Err);
                        }
                        return Err(err_context_index(e, i));
                    }
                }
                i = i + 1;
            }
            proof {
                assert(out@.map_values(|x: String| x@) =~= spec_num_arr(*v));
            }
            Ok(out)
        }
        _ => Err(TenhouJsonError::new(TenhouJsonErrorKind::TypeMismatch)),
    }
}

/// Whether every entry of an array is text.
pub open spec fn spec_str_arr_ok(v: JVal) -> bool {
    v matches JVal::Arr(a) && (forall|k: int| 0 <= k < a@.len() ==> (#[trigger] a@[k]) matches
        JVal::Str(..))
}

/// The texts of such an array.
pub open spec fn spec_str_arr(v: JVal) -> Seq<Seq<char>> {
    match v {
        JVal::Arr(a) => Seq::new(a@.len(), |k: int| a@[k]->Str_0@),
        _ => Seq::empty(),
    }
}

fn conv_string_array(v: &JVal) -> (r: TenhouJsonResult<Vec<String>>)
    ensures
        (r matches Ok(xs) ==> spec_str_arr_ok(*v) && xs@.map_values(|x: String| x@)
            == spec_str_arr(*v)),
        (r is Ok <==> spec_str_arr_ok(*v)),
{
    match v {
        JVal::Arr(a) => {
            let mut out: Vec<String> = Vec::new();
            let mut i: usize = 0;
            while i < a.len()
                invariant
                    i <= a@.len(),
                    *v == JVal::Arr(*a),
                    out@.len() == i,
                    forall|k: int| 0 <= k < i ==> (#[trigger] a@[k]) matches JVal::Str(..),
                    forall|k: int| 0 <= k < i ==> #[trigger] out@[k]@ == a@[k]->Str_0@,
                decreases a@.len() - i,
            {
                match conv_string(&a[i]) {
                    Ok(x) => {
                        out.push(x);
                    }
                    Err(e) => {
                        return Err(err_context_index(e, i));
                    }
                }
                i = i + 1;
            }
            proof {
                assert(out@.map_values(|x: String| x@) =~= spec_str_arr(*v));
            }
            Ok(out)
        }
        _ => Err(TenhouJsonError::new(TenhouJsonErrorKind::TypeMismatch)),
    }
}

/// Whether every entry of an array reads as an incoming-stream token.
pub open spec fn spec_incomings_ok(v: JVal) -> bool {
    v matches JVal::Arr(a) && (forall|k: int|
        0 <= k < a@.len() ==> spec_conv_incoming(#[trigger] a@[k]) is Ok)
}

pub open spec fn spec_incomings(v: JVal) -> Seq<IncomingTile> {
    match v {
        JVal::Arr(a) => Seq::new(a@.len(), |k: int| spec_conv_incoming(a@[k])->Ok_0),
        _ => Seq::empty(),
    }
}

fn conv_incoming_tiles(v: &JVal) -> (r: TenhouJsonResult<Vec<IncomingTile>>)
    ensures
        (r matches Ok(xs) ==> spec_incomings_ok(*v) && xs@ == spec_incomings(*v)),
        (r is Ok <==> spec_incomings_ok(*v)),
{
    match v {
        JVal::Arr(a) => {
            let mut out: Vec<IncomingTile> = Vec::new();
            let mut i: usize = 0;
            while i < a.len()
                invariant
                    i <= a@.len(),
                    *v == JVal::Arr(*a),
                    out@.len() == i,
                    forall|k: int| 0 <= k < i ==> spec_conv_incoming(#[trigger] a@[k]) is Ok,
                    forall|k: int|
                        0 <= k < i ==> #[trigger] out@[k] == spec_conv_incoming(a@[k])->Ok_0,
                decreases a@.len() - i,
            {
                match conv_incoming_tile(&a[i]) {
                    Ok(x) => {
                        out.push(x);
                    }
                    Err(e) => {
                        proof {
                            assert(spec_conv_incoming(a@[i as int]) is Err);
                        }
                        return Err(e);
                    }
                }
                i = i + 1;
            }
            proof {
                assert(out@ =~= spec_incomings(*v));
            }
            Ok(out)
        }
        _ => Err(TenhouJsonError::new(TenhouJsonErrorKind::TypeMismatch)),
    }
}

/// Whether every entry of an array reads as an outgoing-stream token.
pub open spec fn spec_outgoings_ok(v: JVal) -> bool {
    v matches JVal::Arr(a) && (forall|k: int|
        0 <= k < a@.len() ==> spec_conv_outgoing(#[trigger] a@[k]) is Ok)
}

pub open spec fn spec_outgoings(v: JVal) -> Seq<OutgoingTile> {
    match v {
        JVal::Arr(a) => Seq::new(a@.len(), |k: int| spec_conv_outgoing(a@[k])->Ok_0),
        _ => Seq::empty(),
    }
}

fn conv_outgoing_tiles(v: &JVal) -> (r: TenhouJsonResult<Vec<OutgoingTile>>)
    ensures
        (r matches Ok(xs) ==> spec_outgoings_ok(*v) && xs@ == spec_outgoings(*v)),
        (r is Ok <==> spec_outgoings_ok(*v)),
{
    match v {
        JVal::Arr(a) => {
            let mut out: Vec<OutgoingTile> = Vec::new();
            let mut i: usize = 0;
            while i < a.len()
                invariant
                    i <= a@.len(),
                    *v == JVal::Arr(*a),
                    out@.len() == i,
                    forall|k: int| 0 <= k < i ==> spec_conv_outgoing(#[trigger] a@[k]) is Ok,
                    forall|k: int|
                        0 <= k < i ==> #[trigger] out@[k] == spec_conv_outgoing(a@[k])->Ok_0,
                decreases a@.len() - i,
            {
                match conv_outgoing_tile(&a[i]) {
                    Ok(x) => {
                        out.push(x);
                    }
                    Err(e) => {
                        proof {
                            assert(spec_conv_outgoing(a@[i as int]) is Err);
                        }
                        return Err(e);
                    }
                }
                i = i + 1;
            }
            proof {
                assert(out@ =~= spec_outgoings(*v));
            }
            Ok(out)
        }
        _ => Err(TenhouJsonError::new(TenhouJsonErrorKind::TypeMismatch)),
    }
}

/// The printed ranked score a node carries.
pub open spec fn spec_conv_ranked(v: JVal) -> Result<RankedScore, TenhouJsonErrorKind> {
    match v {
        JVal::Str(s) => match spec_parse_exact_ranked_score(s@) {
            Some(rs) => Ok(rs),
            None => Err(TenhouJsonErrorKind::InvalidRankedScore),
        },
        _ => Err(TenhouJsonErrorKind::TypeMismatch),
    }
}

fn conv_ranked_score(v: &JVal) -> (r: TenhouJsonResult<RankedScore>)
    ensures
        (r matches Ok(rs) ==> spec_conv_ranked(*v) == Ok::<RankedScore, TenhouJsonErrorKind>(rs)),
        (r is Ok <==> spec_conv_ranked(*v) is Ok),
{
    match v {
        JVal::Str(s) => match parse_exact_ranked_score(s.as_str()) {
            Some(rs) => Ok(rs),
            None => Err(TenhouJsonError::new(TenhouJsonErrorKind::InvalidRankedScore)),
        },
        _ => Err(TenhouJsonError::new(TenhouJsonErrorKind::TypeMismatch)),
    }
}

/// Whether one winning entry pair reads as a winning record: the score
/// deltas, then the seats, the printed score and the printed yaku.
pub open spec fn spec_agari_read_ok(c0: JVal, c1: JVal) -> bool {
    &&& spec_i32_arr_ok(c0)
    &&& c1 matches JVal::Arr(xs) && xs@.len() > 4 && spec_conv_i64(xs@[0]) is Ok && spec_conv_i64(
        xs@[1],
    ) is Ok && spec_conv_i64(xs@[2]) is Ok && spec_conv_ranked(xs@[3]) is Ok && (forall|k: int|
        4 <= k < xs@.len() ==> ((#[trigger] xs@[k]) matches JVal::Str(sy)
            && spec_yaku_pair_from_text(sy@) is Some))
}

/// How a read winning record relates to its entry pair.
pub open spec fn spec_agari_read_rel(c0: JVal, c1: JVal, a: Agari) -> bool {
    match c1 {
        JVal::Arr(xs) => {
            &&& a.delta_points@ == spec_i32_arr(c0)
            &&& a.who == spec_conv_i64(xs@[0])->Ok_0 as u8
            &&& a.from_who == spec_conv_i64(xs@[1])->Ok_0 as u8
            &&& a.pao_who == spec_conv_i64(xs@[2])->Ok_0 as u8
            &&& a.ranked_score == spec_conv_ranked(xs@[3])->Ok_0
            &&& a.yaku@.len() == xs@.len() - 4
            &&& (forall|k: int|
                0 <= k < xs@.len() - 4 ==> #[trigger] a.yaku@[k] == spec_yaku_pair_from_text(
                    xs@[k + 4]->Str_0@,
                )->Some_0)
        },
        _ => false,
    }
}

fn conv_agari(c0: &JVal, c1: &JVal) -> (r: TenhouJsonResult<Agari>)
    ensures
        (r matches Ok(a) ==> spec_agari_read_rel(*c0, *c1, a)),
        (r is Ok <==> spec_agari_read_ok(*c0, *c1)),
{
    let xs = match c1 {
        JVal::Arr(xs) => xs,
        _ => {
            return Err(TenhouJsonError::new(TenhouJsonErrorKind::TypeMismatch));
        }
    };
    if xs.len() <= 4 {
        return Err(TenhouJsonError::new(TenhouJsonErrorKind::InvalidAgariFormat));
    }
    let delta_points = conv_i32_array(c0)?;
    let who = conv_u8(&xs[0])?;
    let from_who = conv_u8(&xs[1])?;
    let pao_who = conv_u8(&xs[2])?;
    let ranked_score = conv_ranked_score(&xs[3])?;
    let mut yaku: Vec<YakuPair> = Vec::new();
    let mut i: usize = 4;
    while i < xs.len()
        invariant
            4 <= i <= xs@.len(),
            *c1 == JVal::Arr(*xs),
            yaku@.len() == i - 4,
            forall|k: int|
                4 <= k < i ==> ((#[trigger] xs@[k]) matches JVal::Str(sy)
                    && spec_yaku_pair_from_text(sy@) is Some),
            forall|k: int|
                0 <= k < i - 4 ==> #[trigger] yaku@[k] == spec_yaku_pair_from_text(
                    xs@[k + 4]->Str_0@,
                )->Some_0,
        decreases xs@.len() - i,
    {
        let s = match &xs[i] {
            JVal::Str(s) => s,
            _ => {
                return Err(TenhouJsonError::new(TenhouJsonErrorKind::InvalidYakuFormat));
            }
        };
        match yaku_pair_from_text(s) {
            Some(p) => {
                yaku.push(p);
            }
            None => {
                return Err(TenhouJsonError::new(TenhouJsonErrorKind::InvalidYakuFormat));
            }
        }
        i = i + 1;
    }
    Ok(Agari { delta_points, who, from_who, pao_who, ranked_score, yaku })
}

/// Whether the winning entries after the win word pair up and read.
pub open spec fn spec_agari_pairs_ok(xs: Seq<JVal>) -> bool {
    &&& xs.len() % 2 == 1
    &&& (forall|k: int|
        0 <= k < (xs.len() - 1) / 2 ==> spec_agari_read_ok(
            #[trigger] xs[1 + 2 * k],
            xs[2 + 2 * k],
        ))
}

/// Whether a round-outcome node reads.
pub open spec fn spec_result_read_ok(v: JVal) -> bool {
    match v {
        JVal::Arr(xs) => {
            &&& xs@.len() >= 1
            &&& xs@[0] matches JVal::Str(..)
            &&& (if xs@[0]->Str_0@ == "和了"@ {
                spec_agari_pairs_ok(xs@)
            } else {
                spec_reason_from_text(xs@[0]->Str_0@) is Some && (xs@.len() >= 2
                    ==> spec_i32_arr_ok(xs@[1]))
            })
        },
        _ => false,
    }
}

/// How a read round outcome relates to its node.
pub open spec fn spec_result_read_rel(v: JVal, r: RoundResult) -> bool {
    match v {
        JVal::Arr(xs) => {
            if xs@[0]->Str_0@ == "和了"@ {
                r matches RoundResult::Agari { agari_vec } && agari_vec@.len() == (xs@.len() - 1)
                    / 2 && (forall|k: int|
                    0 <= k < (xs@.len() - 1) / 2 ==> spec_agari_read_rel(
                        #[trigger] xs@[1 + 2 * k],
                        xs@[2 + 2 * k],
                        agari_vec@[k],
                    ))
            } else {
                r matches RoundResult::Ryuukyoku { reason, delta_points } && reason
                    == spec_reason_from_text(xs@[0]->Str_0@)->Some_0 && delta_points@ == (
                if xs@.len() >= 2 {
                    spec_i32_arr(xs@[1])
                } else {
                    Seq::<i32>::empty()
                })
            }
        },
        _ => false,
    }
}

fn conv_round_result(v: &JVal) -> (r: TenhouJsonResult<RoundResult>)
    ensures
        (r matches Ok(res) ==> spec_result_read_rel(*v, res)),
        (r is Ok <==> spec_result_read_ok(*v)),
{
    proof {
        reveal_strlit("和了");
    }
    let xs = match v {
        JVal::Arr(xs) => xs,
        _ => {
            return Err(TenhouJsonError::new(TenhouJsonErrorKind::TypeMismatch));
        }
    };
    if xs.len() == 0 {
        return Err(TenhouJsonError::new(TenhouJsonErrorKind::InvalidArrayLength));
    }
    let head = match &xs[0] {
        JVal::Str(s) => s,
        _ => {
            return Err(TenhouJsonError::new(TenhouJsonErrorKind::TypeMismatch));
        }
    };
    if head.eq(&String::from_str("和了")) {
        if xs.len() % 2 != 1 {
            return Err(TenhouJsonError::new(TenhouJsonErrorKind::InvalidAgariFormat));
        }
        let mut agari_vec: Vec<Agari> = Vec::new();
        let mut i: usize = 1;
        while i < xs.len() - 1
            invariant
                1 <= i <= xs@.len(),
                i % 2 == 1,
                xs@.len() % 2 == 1,
                *v == JVal::Arr(*xs),
                xs@[0] matches JVal::Str(..),
                xs@[0]->Str_0@ == "和了"@,
                agari_vec@.len() == (i - 1) / 2,
                forall|k: int|
                    0 <= k < (i - 1) / 2 ==> spec_agari_read_ok(
                        #[trigger] xs@[1 + 2 * k],
                        xs@[2 + 2 * k],
                    ),
                forall|k: int|
                    0 <= k < (i - 1) / 2 ==> spec_agari_read_rel(
                        #[trigger] xs@[1 + 2 * k],
                        xs@[2 + 2 * k],
                        agari_vec@[k],
                    ),
            decreases xs@.len() - i,
        {
            match conv_agari(&xs[i], &xs[i + 1]) {
                Ok(a) => {
                    agari_vec.push(a);
                    proof {
                        assert(2 * (((i as int) - 1) / 2) == i - 1);
                    }
                }
                Err(e) => {
                    proof {
                        assert(2 * (((i as int) - 1) / 2) == i - 1);
                        let k = ((i as int) - 1) / 2;
                        assert(xs@[1 + 2 * k] == xs@[i as int]);
                        assert(xs@[2 + 2 * k] == xs@[i + 1]);
                        assert(!spec_agari_read_ok(xs@[1 + 2 * k], xs@[2 + 2 * k]));
                        assert(0 <= k < (xs@.len() - 1) / 2);
                        assert(!spec_agari_pairs_ok(xs@));
                        assert(!spec_result_read_ok(*v));
                    }
                    return Err(e);
                }
            }
            i = i + 2;
        }
        proof {
            assert(i == xs@.len());
        }
        Ok(RoundResult::Agari { agari_vec })
    } else {
        let reason = match reason_from_text(head) {
            Some(x) => x,
            None => {
                return Err(
                    TenhouJsonError::new(TenhouJsonErrorKind::InvalidExtraRyuukyokuReason),
                );
            }
        };
        let delta_points = if xs.len() >= 2 {
            conv_i32_array(&xs[1])?
        } else {
            Vec::new()
        };
        proof {
            if xs@.len() < 2 {
                assert(delta_points@ =~= Seq::<i32>::empty());
            }
        }
        Ok(RoundResult::Ryuukyoku { reason, delta_points })
    }
}

/// Whether the four header entries of a round read as its settings.
pub open spec fn spec_setting_read_ok(xs: Seq<JVal>) -> bool {
    &&& spec_i32_arr_ok(xs[0]) && spec_i32_arr(xs[0]).len() == 3
    &&& spec_i32_arr_ok(xs[1])
    &&& spec_tiles_arr_ok(xs[2])
    &&& spec_tiles_arr_ok(xs[3])
}

/// How read round settings relate to the four header entries.
pub open spec fn spec_setting_read_rel(xs: Seq<JVal>, rs: RoundSettings) -> bool {
    let h1 = spec_i32_arr(xs[0]);
    &&& rs.kyoku == h1[0] as u8
    &&& rs.honba == h1[1] as u8
    &&& rs.kyoutaku == h1[2] as u8
    &&& rs.points@ == spec_i32_arr(xs[1])
    &&& rs.dora@ == spec_tiles_arr(xs[2])
    &&& rs.ura_dora@ == spec_tiles_arr(xs[3])
}

fn conv_round_setting(xs: &Vec<JVal>) -> (r: TenhouJsonResult<RoundSettings>)
    requires
        xs@.len() >= 4,
    ensures
        (r matches Ok(rs) ==> spec_setting_read_rel(xs@, rs)),
        (r is Ok <==> spec_setting_read_ok(xs@)),
{
    let h1 = conv_i32_array(&xs[0])?;
    if h1.len() != 3 {
        return Err(TenhouJsonError::new(TenhouJsonErrorKind::InvalidArrayLength));
    }
    let points = conv_i32_array(&xs[1])?;
    let dora = conv_tiles(&xs[2])?;
    let ura_dora = conv_tiles(&xs[3])?;
    Ok(
        RoundSettings {
            kyoku: #[verifier::truncate] (h1[0] as u8),
            honba: #[verifier::truncate] (h1[1] as u8),
            kyoutaku: #[verifier::truncate] (h1[2] as u8),
            points,
            dora,
            ura_dora,
        },
    )
}

/// Whether three entries read as one seat's reconstruction.
pub open spec fn spec_player_read_ok(xs: Seq<JVal>, base: int) -> bool {
    &&& spec_tiles_arr_ok(xs[base])
    &&& spec_incomings_ok(xs[base + 1])
    &&& spec_outgoings_ok(xs[base + 2])
}

/// How a read seat relates to its three entries.
pub open spec fn spec_player_read_rel(xs: Seq<JVal>, base: int, p: RoundPlayer) -> bool {
    &&& p.hand@ == spec_tiles_arr(xs[base])
    &&& p.incoming@ == spec_incomings(xs[base + 1])
    &&& p.outgoing@ == spec_outgoings(xs[base + 2])
}

fn conv_round_player(xs: &Vec<JVal>, base: usize) -> (r: TenhouJsonResult<RoundPlayer>)
    requires
        base + 3 <= xs@.len(),
    ensures
        (r matches Ok(p) ==> spec_player_read_rel(xs@, base as int, p)),
        (r is Ok <==> spec_player_read_ok(xs@, base as int)),
{
    let n = xs.len();
    proof {
        assert(base + 3 <= n);
    }
    let hand = conv_tiles(&xs[base])?;
    let incoming = conv_incoming_tiles(&xs[base + 1])?;
    let outgoing = conv_outgoing_tiles(&xs[base + 2])?;
    Ok(RoundPlayer { hand, incoming, outgoing })
}

/// Whether a round node reads: four header entries, three entries for
/// each of the four seats, then the outcome.
pub open spec fn spec_round_read_ok(v: JVal) -> bool {
    match v {
        JVal::Arr(xs) => {
            &&& xs@.len() == 17
            &&& spec_setting_read_ok(xs@)
            &&& (forall|p: int| 0 <= p < 4 ==> spec_player_read_ok(xs@, #[trigger] (4 + 3 * p)))
            &&& spec_result_read_ok(xs@[16])
        },
        _ => false,
    }
}

/// How a read round relates to its node.
pub open spec fn spec_round_read_rel(v: JVal, rd: Round) -> bool {
    match v {
        JVal::Arr(xs) => {
            &&& spec_setting_read_rel(xs@, rd.settings)
            &&& rd.players@.len() == 4
            &&& (forall|p: int|
                0 <= p < 4 ==> spec_player_read_rel(xs@, 4 + 3 * p, #[trigger] rd.players@[p]))
            &&& spec_result_read_rel(xs@[16], rd.result)
        },
        _ => false,
    }
}

fn conv_round(v: &JVal) -> (r: TenhouJsonResult<Round>)
    ensures
        (r matches Ok(rd) ==> spec_round_read_rel(*v, rd)),
        (r is Ok <==> spec_round_read_ok(*v)),
{
    let xs = match v {
        JVal::Arr(xs) => xs,
        _ => {
            return Err(TenhouJsonError::new(TenhouJsonErrorKind::TypeMismatch));
        }
    };
    // header(4) + players(4*3) + result(1) == 17
    if xs.len() != 17 {
        return Err(TenhouJsonError::new(TenhouJsonErrorKind::InvalidArrayLength));
    }
    let settings = conv_round_setting(xs)?;
    let mut players: Vec<RoundPlayer> = Vec::new();
    let mut p: usize = 0;
    while p < 4
        invariant
            p <= 4,
            *v == JVal::Arr(*xs),
            xs@.len() == 17,
            players@.len() == p,
            forall|q: int| 0 <= q < p ==> spec_player_read_ok(xs@, #[trigger] (4 + 3 * q)),
            forall|q: int|
                0 <= q < p ==> spec_player_read_rel(xs@, 4 + 3 * q, #[trigger] players@[q]),
        decreases 4 - p,
    {
        let pl = conv_round_player(xs, 4 + 3 * p)?;
        players.push(pl);
        p = p + 1;
    }
    let result = conv_round_result(&xs[16])?;
    Ok(Round { settings, players, result })
}

/// Whether a connection node reads: the four keyed counters.
pub open spec fn spec_connection_read_ok(v: JVal) -> bool {
    &&& (jfield_of(v, "what"@) matches Some(w) && spec_conv_i64(w) is Ok)
    &&& (jfield_of(v, "log"@) matches Some(l) && spec_conv_i64(l) is Ok)
    &&& (jfield_of(v, "who"@) matches Some(h) && spec_conv_i64(h) is Ok)
    &&& (jfield_of(v, "step"@) matches Some(s) && spec_conv_i64(s) is Ok)
}

/// How a read connection event relates to its node.
pub open spec fn spec_connection_read_rel(v: JVal, c: Connection) -> bool {
    &&& c.what == spec_conv_i64(jfield_of(v, "what"@)->Some_0)->Ok_0 as u8
    &&& c.log == spec_conv_i64(jfield_of(v, "log"@)->Some_0)->Ok_0 as i8
    &&& c.who == spec_conv_i64(jfield_of(v, "who"@)->Some_0)->Ok_0 as u8
    &&& c.step == spec_conv_i64(jfield_of(v, "step"@)->Some_0)->Ok_0 as u32
}

fn conv_connection(v: &JVal) -> (r: TenhouJsonResult<Connection>)
    ensures
        (r matches Ok(c) ==> spec_connection_read_rel(*v, c)),
        (r is Ok <==> spec_connection_read_ok(*v)),
{
    let what = match conv_u8(get_field(v, "what")?) {
        Ok(x) => x,
        Err(e) => {
            return Err(err_context(e, "what"));
        }
    };
    let log = match conv_i8(get_field(v, "log")?) {
        Ok(x) => x,
        Err(e) => {
            return Err(err_context(e, "log"));
        }
    };
    let who = match conv_u8(get_field(v, "who")?) {
        Ok(x) => x,
        Err(e) => {
            return Err(err_context(e, "who"));
        }
    };
    let step = match conv_u32(get_field(v, "step")?) {
        Ok(x) => x,
        Err(e) => {
            return Err(err_context(e, "step"));
        }
    };
    Ok(Connection { what, log, who, step })
}

/// Whether a rule node reads: the display text and the three red-five
/// switches.
pub open spec fn spec_rule_read_ok(v: JVal) -> bool {
    &&& (jfield_of(v, "disp"@) matches Some(d) && d matches JVal::Str(..))
    &&& (jfield_of(v, "aka51"@) matches Some(a1) && spec_conv_i64(a1) is Ok)
    &&& (jfield_of(v, "aka52"@) matches Some(a2) && spec_conv_i64(a2) is Ok)
    &&& (jfield_of(v, "aka53"@) matches Some(a3) && spec_conv_i64(a3) is Ok)
}

/// How a read rule relates to its node.
pub open spec fn spec_rule_read_rel(v: JVal, r: Rule) -> bool {
    &&& r.disp@ == jfield_of(v, "disp"@)->Some_0->Str_0@
    &&& r.aka51 == (spec_conv_i64(jfield_of(v, "aka51"@)->Some_0)->Ok_0 as u32 != 0)
    &&& r.aka52 == (spec_conv_i64(jfield_of(v, "aka52"@)->Some_0)->Ok_0 as u32 != 0)
    &&& r.aka53 == (spec_conv_i64(jfield_of(v, "aka53"@)->Some_0)->Ok_0 as u32 != 0)
}

fn conv_rule(v: &JVal) -> (r: TenhouJsonResult<Rule>)
    ensures
        (r matches Ok(rule) ==> spec_rule_read_rel(*v, rule)),
        (r is Ok <==> spec_rule_read_ok(*v)),
{
    let disp = match conv_string(get_field(v, "disp")?) {
        Ok(x) => x,
        Err(e) => {
            return Err(err_context(e, "disp"));
        }
    };
    let aka51 = match conv_u32(get_field(v, "aka51")?) {
        Ok(x) => x,
        Err(e) => {
            return Err(err_context(e, "aka51"));
        }
    };
    let aka52 = match conv_u32(get_field(v, "aka52")?) {
        Ok(x) => x,
        Err(e) => {
            return Err(err_context(e, "aka52"));
        }
    };
    let aka53 = match conv_u32(get_field(v, "aka53")?) {
        Ok(x) => x,
        Err(e) => {
            return Err(err_context(e, "aka53"));
        }
    };
    Ok(Rule { disp, aka53: aka53 != 0, aka52: aka52 != 0, aka51: aka51 != 0 })
}

/// Whether the interleaved final-standing array reads: scores at even
/// positions, numeric text at odd ones.
pub open spec fn spec_sc_read_ok(v: JVal) -> bool {
    v matches JVal::Arr(scs) && (forall|k: int|
        0 <= k < scs@.len() ==> (if k % 2 == 0 {
            spec_conv_i64(#[trigger] scs@[k]) is Ok
        } else {
            spec_conv_num_text(scs@[k]) is Ok
        }))
}

/// Whether a whole match document reads.
pub open spec fn spec_doc_read_ok(v: JVal) -> bool {
    &&& (jfield_of(v, "ver"@) matches Some(ver) && spec_conv_num_text(ver) is Ok)
    &&& (jfield_of(v, "ref"@) matches Some(rf) && rf matches JVal::Str(..))
    &&& (jfield_of(v, "log"@) matches Some(lg) && lg matches JVal::Arr(rs) && (forall|k: int|
        0 <= k < rs@.len() ==> spec_round_read_ok(#[trigger] rs@[k])))
    &&& (jfield_of(v, "connection"@) matches Some(cn) ==> (cn matches JVal::Arr(cs) && (forall|
        k: int,
    |
        0 <= k < cs@.len() ==> spec_connection_read_ok(#[trigger] cs@[k]))))
    &&& (jfield_of(v, "ratingc"@) matches Some(rc) && rc matches JVal::Str(..))
    &&& (jfield_of(v, "rule"@) matches Some(rl) && spec_rule_read_ok(rl))
    &&& (jfield_of(v, "lobby"@) matches Some(lb) && spec_conv_i64(lb) is Ok)
    &&& (jfield_of(v, "dan"@) matches Some(dn) && spec_str_arr_ok(dn))
    &&& (jfield_of(v, "rate"@) matches Some(rt) && spec_num_arr_ok(rt))
    &&& (jfield_of(v, "sx"@) matches Some(sx) && spec_str_arr_ok(sx))
    &&& (jfield_of(v, "sc"@) matches Some(sc) && spec_sc_read_ok(sc))
    &&& (jfield_of(v, "name"@) matches Some(nm) && spec_str_arr_ok(nm))
}

/// How a read match record relates to its document.
pub open spec fn spec_doc_read_rel(v: JVal, t: TenhouJson) -> bool {
    let lg = jfield_of(v, "log"@)->Some_0;
    let sc = jfield_of(v, "sc"@)->Some_0;
    &&& t.ver@ == spec_conv_num_text(jfield_of(v, "ver"@)->Some_0)->Ok_0
    &&& t.reference@ == jfield_of(v, "ref"@)->Some_0->Str_0@
    &&& (lg matches JVal::Arr(rs) && t.rounds@.len() == rs@.len() && (forall|k: int|
        0 <= k < rs@.len() ==> spec_round_read_rel(#[trigger] rs@[k], t.rounds@[k])))
    &&& (match jfield_of(v, "connection"@) {
        None => t.connections@.len() == 0,
        Some(cn) => (cn matches JVal::Arr(cs) && t.connections@.len() == cs@.len() && (forall|
            k: int,
        |
            0 <= k < cs@.len() ==> spec_connection_read_rel(
                #[trigger] cs@[k],
                t.connections@[k],
            ))),
    })
    &&& t.ratingc@ == jfield_of(v, "ratingc"@)->Some_0->Str_0@
    &&& spec_rule_read_rel(jfield_of(v, "rule"@)->Some_0, t.rule)
    &&& t.lobby == spec_conv_i64(jfield_of(v, "lobby"@)->Some_0)->Ok_0 as u32
    &&& t.dan@.map_values(|x: String| x@) == spec_str_arr(jfield_of(v, "dan"@)->Some_0)
    &&& t.rate@.map_values(|x: String| x@) == spec_num_arr(jfield_of(v, "rate"@)->Some_0)
    &&& t.sx@.map_values(|x: String| x@) == spec_str_arr(jfield_of(v, "sx"@)->Some_0)
    &&& (sc matches JVal::Arr(scs) && t.final_points@.len() == (scs@.len() + 1) / 2 && (forall|
        k: int,
    |
        0 <= k < t.final_points@.len() ==> #[trigger] t.final_points@[k] == spec_conv_i64(
            scs@[2 * k],
        )->Ok_0 as i32) && t.final_results@.len() == scs@.len() / 2 && (forall|k: int|
        0 <= k < t.final_results@.len() ==> #[trigger] t.final_results@[k]@ == spec_conv_num_text(
            scs@[2 * k + 1],
        )->Ok_0))
    &&& t.names@.map_values(|x: String| x@) == spec_str_arr(jfield_of(v, "name"@)->Some_0)
}

/// Reads a whole match document: every keyed field of the record, the
/// rounds, and the interleaved final standing.
pub fn parse_tenhou_json(v: &JVal) -> (r: TenhouJsonResult<TenhouJson>)
    ensures
        (r matches Ok(t) ==> spec_doc_read_rel(*v, t)),
        (r is Ok <==> spec_doc_read_ok(*v)),
{
    let sc = get_field(v, "sc")?;
    let scs = match sc {
        JVal::Arr(scs) => scs,
        _ => {
            return Err(TenhouJsonError::new(TenhouJsonErrorKind::TypeMismatch));
        }
    };
    let mut final_points: Vec<i32> = Vec::new();
    let mut final_results: Vec<String> = Vec::new();
    let n = scs.len();
    let mut k: usize = 0;
    while k < n
        invariant
            k <= n,
            n == scs@.len(),
            *sc == JVal::Arr(*scs),
            jfield_of(*v, "sc"@) == Some(*sc),
            final_points@.len() == (k + 1) / 2,
            final_results@.len() == k / 2,
            forall|q: int|
                0 <= q < k ==> (if q % 2 == 0 {
                    spec_conv_i64(#[trigger] scs@[q]) is Ok
                } else {
                    spec_conv_num_text(scs@[q]) is Ok
                }),
            forall|q: int|
                0 <= q < final_points@.len() ==> #[trigger] final_points@[q] == spec_conv_i64(
                    scs@[2 * q],
                )->Ok_0 as i32,
            forall|q: int|
                0 <= q < final_results@.len() ==> #[trigger] final_results@[q]@
                    == spec_conv_num_text(scs@[2 * q + 1])->Ok_0,
        decreases n - k,
    {
        if k % 2 == 0 {
            match conv_i32(&scs[k]) {
                Ok(x) => {
                    final_points.push(x);
                }
                Err(e) => {
                    proof {
                        assert(spec_conv_i64(scs@[k as int]) is Err);
                    }
                    return Err(err_context(e, "sc"));
                }
            }
        } else {
            match conv_num_text(&scs[k]) {
                Ok(x) => {
                    final_results.push(x);
                }
                Err(e) => {
                    proof {
                        assert(spec_conv_num_text(scs@[k as int]) is Err);
                    }
                    return Err(err_context(e, "sc"));
                }
            }
        }
        k = k + 1;
    }

    let ver = match conv_num_text(get_field(v, "ver")?) {
        Ok(x) => x,
        Err(e) => {
            return Err(err_context(e, "ver"));
        }
    };
    let reference = match conv_string(get_field(v, "ref")?) {
        Ok(x) => x,
        Err(e) => {
            return Err(err_context(e, "ref"));
        }
    };

    let lg = get_field(v, "log")?;
    let rvs = match lg {
        JVal::Arr(rvs) => rvs,
        _ => {
            return Err(TenhouJsonError::new(TenhouJsonErrorKind::TypeMismatch));
        }
    };
    let mut rounds: Vec<Round> = Vec::new();
    let mut i: usize = 0;
    while i < rvs.len()
        invariant
            i <= rvs@.len(),
            *lg == JVal::Arr(*rvs),
            jfield_of(*v, "log"@) == Some(*lg),
            rounds@.len() == i,
            forall|q: int| 0 <= q < i ==> spec_round_read_ok(#[trigger] rvs@[q]),
            forall|q: int|
                0 <= q < i ==> spec_round_read_rel(#[trigger] rvs@[q], rounds@[q]),
        decreases rvs@.len() - i,
    {
        match conv_round(&rvs[i]) {
            Ok(rd) => {
                rounds.push(rd);
            }
            Err(e) => {
                proof {
                    assert(!spec_round_read_ok(rvs@[i as int]));
                    if spec_doc_read_ok(*v) {
                        assert(jfield_of(*v, "log"@)->Some_0 == *lg);
                        assert(jfield_of(*v, "log"@)->Some_0->Arr_0 == *rvs);
                        assert(jfield_of(*v, "log"@)->Some_0->Arr_0@[i as int] == rvs@[i as int]);
                        assert(spec_round_read_ok(rvs@[i as int]));
                        assert(false);
                    }
                }
                return Err(err_context_index(e, i));
            }
        }
        i = i + 1;
    }

    let mut connections: Vec<Connection> = Vec::new();
    match get_field(v, "connection") {
        Err(_) => {}
        Ok(cn) => {
            let cvs = match cn {
                JVal::Arr(cvs) => cvs,
                _ => {
                    return Err(TenhouJsonError::new(TenhouJsonErrorKind::TypeMismatch));
                }
            };
            let mut c: usize = 0;
            while c < cvs.len()
                invariant
                    c <= cvs@.len(),
                    *cn == JVal::Arr(*cvs),
                    jfield_of(*v, "connection"@) == Some(*cn),
                    connections@.len() == c,
                    forall|q: int| 0 <= q < c ==> spec_connection_read_ok(#[trigger] cvs@[q]),
                    forall|q: int|
                        0 <= q < c ==> spec_connection_read_rel(
                            #[trigger] cvs@[q],
                            connections@[q],
                        ),
                decreases cvs@.len() - c,
            {
                match conv_connection(&cvs[c]) {
                    Ok(x) => {
                        connections.push(x);
                    }
                    Err(e) => {
                        proof {
                            assert(!spec_connection_read_ok(cvs@[c as int]));
                            if spec_doc_read_ok(*v) {
                                assert(jfield_of(*v, "connection"@)->Some_0 == *cn);
                                assert(jfield_of(*v, "connection"@)->Some_0->Arr_0 == *cvs);
                                assert(jfield_of(*v, "connection"@)->Some_0->Arr_0@[c as int]
                                    == cvs@[c as int]);
                                assert(spec_connection_read_ok(cvs@[c as int]));
                                assert(false);
                            }
                        }
                        return Err(err_context_index(e, c));
                    }
                }
                c = c + 1;
            }
        }
    }

    let ratingc = match conv_string(get_field(v, "ratingc")?) {
        Ok(x) => x,
        Err(e) => {
            return Err(err_context(e, "ratingc"));
        }
    };
    let rule = match conv_rule(get_field(v, "rule")?) {
        Ok(x) => x,
        Err(e) => {
            return Err(err_context(e, "rule"));
        }
    };
    let lobby = match conv_u32(get_field(v, "lobby")?) {
        Ok(x) => x,
        Err(e) => {
            return Err(err_context(e, "lobby"));
        }
    };
    let dan = match conv_string_array(get_field(v, "dan")?) {
        Ok(x) => x,
        Err(e) => {
            return Err(err_context(e, "dan"));
        }
    };
    let rate = match conv_num_array(get_field(v, "rate")?) {
        Ok(x) => x,
        Err(e) => {
            return Err(err_context(e, "rate"));
        }
    };
    let sx = match conv_string_array(get_field(v, "sx")?) {
        Ok(x) => x,
        Err(e) => {
            return Err(err_context(e, "sx"));
        }
    };
    let names = match conv_string_array(get_field(v, "name")?) {
        Ok(x) => x,
        Err(e) => {
            return Err(err_context(e, "name"));
        }
    };

    Ok(
        TenhouJson {
            ver,
            reference,
            rounds,
            connections,
            ratingc,
            rule,
            lobby,
            dan,
            rate,
            sx,
            final_points,
            final_results,
            names,
        },
    )
}

} // verus!
