//! The converter from the compact attribute-based encoding to the
//! array-based text encoding: round decomposition, per-seat replay, and
//! match assembly.

use crate::mjlog::model::{
    Action, ActionAGARI, ActionRYUUKYOKU, GameSettings, Hai, Meld, Mjlog, Player, TenhouRank,
    TenhouRoom,
};
use crate::mjlog::parser::MjlogError;
use crate::tenhou::calc::{
    get_ko_ron, get_ko_ron_yakuman, get_ko_tsumo, get_ko_tsumo_yakuman, get_oya_ron,
    get_oya_ron_yakuman, get_oya_tsumo, get_oya_tsumo_yakuman, spec_ko_ron, spec_ko_tsumo,
    spec_oya_ron, spec_oya_tsumo,
};
use crate::tenhou::model::{
    Agari, Connection, Direction, ExtraRyuukyokuReason, GamePoint, IncomingTile, OutgoingTile,
    Round, RoundPlayer, RoundResult, RoundSettings, Rule, TenhouJson, Tile, YakuLevel, YakuPair,
    spec_to_black, spec_to_red, spec_valid_tile,
};
use crate::tenhou::parser::TenhouJsonError;
use crate::tenhou::score::{RankedScore, Score, ScoreRank};
use vstd::prelude::*;

verus! {

/// A failure of the whole conversion.
#[derive(Debug, PartialEq, Clone)]
pub enum ConvError {
    MjlogError(MjlogError),
    TenhouJsonError(TenhouJsonError),
    NotFoundActionGO,
    NotFoundActionUN1,
    NotFoundTerminalAction,
    NotFoundRound,
    NotFoundFinalResult,
    InvalidRoundFormat,
    InvalidTileFormat,
}

pub type ConvResult<T> = Result<T, ConvError>;

/// The two-digit tile of a physical ordinal: the three red ordinals when
/// red fives are enabled, else suit and rank from the ordinal.
pub open spec fn spec_hai_to_tile(h: Hai, red_enable: bool) -> Option<Tile> {
    if red_enable && h.0 == 16 {
        Some(Tile(51))
    } else if red_enable && h.0 == 52 {
        Some(Tile(52))
    } else if red_enable && h.0 == 88 {
        Some(Tile(53))
    } else {
        let pict = h.0 / 4;
        let code = (pict / 9 + 1) * 10 + pict % 9 + 1;
        if spec_valid_tile(code as u8) {
            Some(Tile(code as u8))
        } else {
            None
        }
    }
}

/// Converts a physical ordinal into its two-digit tile.
pub fn conv_hai_to_tile(hai: Hai, red_enable: bool) -> (r: ConvResult<Tile>)
    ensures
        (spec_hai_to_tile(hai, red_enable) matches Some(t) ==> r == Ok::<Tile, ConvError>(t)),
        (spec_hai_to_tile(hai, red_enable) is None ==> r == Err::<Tile, ConvError>(
            ConvError::InvalidTileFormat,
        )),
{
    if red_enable {
        if hai.0 == 16 {
            return Ok(Tile(51));
        }
        if hai.0 == 52 {
            return Ok(Tile(52));
        }
        if hai.0 == 88 {
            return Ok(Tile(53));
        }
    }
    let pict = hai.0 / 4;
    let code = (pict / 9 + 1) * 10 + pict % 9 + 1;
    match Tile::from_u8(code) {
        Ok(t) => Ok(t),
        Err(_) => Err(ConvError::InvalidTileFormat),
    }
}

/// The positions of the round-init actions from position `i` on.
pub open spec fn spec_init_positions(s: Seq<Action>, i: int) -> Seq<int>
    decreases s.len() - i,
    when 0 <= i <= s.len()
{
    if i >= s.len() {
        Seq::empty()
    } else if s[i] matches Action::INIT(..) {
        seq![i] + spec_init_positions(s, i + 1)
    } else {
        spec_init_positions(s, i + 1)
    }
}

pub proof fn lemma_init_positions_bounds(s: Seq<Action>, i: int)
    requires
        0 <= i <= s.len(),
    ensures
        forall|k: int|
            0 <= k < spec_init_positions(s, i).len() ==> i <= #[trigger] spec_init_positions(
                s,
                i,
            )[k] < s.len(),
        forall|k: int|
            0 <= k < spec_init_positions(s, i).len() - 1 ==> #[trigger] spec_init_positions(
                s,
                i,
            )[k] < spec_init_positions(s, i)[k + 1],
    decreases s.len() - i,
{
    if i < s.len() {
        lemma_init_positions_bounds(s, i + 1);
        let cur = spec_init_positions(s, i);
        let rest = spec_init_positions(s, i + 1);
        assert forall|k: int| 0 <= k < cur.len() implies i <= #[trigger] cur[k] < s.len() by {
            if s[i] matches Action::INIT(..) {
                if k > 0 {
                    assert(cur[k] == rest[k - 1]);
                }
            } else {
                assert(cur[k] == rest[k]);
            }
        }
        assert forall|k: int| 0 <= k < cur.len() - 1 implies #[trigger] cur[k] < cur[k + 1] by {
            if s[i] matches Action::INIT(..) {
                if k > 0 {
                    assert(cur[k] == rest[k - 1]);
                    assert(cur[k + 1] == rest[k]);
                } else {
                    assert(cur[0] == i);
                    assert(cur[1] == rest[0]);
                }
            } else {
                assert(cur[k] == rest[k]);
                assert(cur[k + 1] == rest[k + 1]);
            }
        }
    }
}

/// Splits a log into rounds: round `k` spans from the `k`-th round-init
/// to the next one, and the last round extends to the end of the log.
/// A log with no round-init yields no rounds.
pub fn extract_round_indices(actions: &Vec<Action>) -> (r: Vec<(usize, usize)>)
    ensures
        ({
            let inits = spec_init_positions(actions@, 0);
            &&& r@.len() == inits.len()
            &&& forall|k: int| 0 <= k < inits.len() ==> (#[trigger] r@[k]).0 == inits[k]
            &&& forall|k: int|
                0 <= k < inits.len() ==> (#[trigger] r@[k]).1 == (if k + 1 < inits.len() {
                    inits[k + 1]
                } else {
                    actions@.len() as int
                })
        }),
{
    let ghost inits = spec_init_positions(actions@, 0);
    let mut idxs: Vec<usize> = Vec::new();
    let mut i: usize = 0;
    while i < actions.len()
        invariant
            i <= actions@.len(),
            idxs@.map_values(|x: usize| x as int) + spec_init_positions(actions@, i as int)
                == spec_init_positions(actions@, 0),
        decreases actions@.len() - i,
    {
        let is_init_here = match &actions[i] {
            Action::INIT(_) => true,
            _ => false,
        };
        if is_init_here {
            let ghost old_idxs = idxs@;
            idxs.push(i);
            proof {
                assert(idxs@.map_values(|x: usize| x as int) =~= old_idxs.map_values(
                    |x: usize| x as int,
                ).push(i as int));
                assert(old_idxs.map_values(|x: usize| x as int).push(i as int)
                    + spec_init_positions(actions@, i + 1) =~= old_idxs.map_values(
                    |x: usize| x as int,
                ) + (seq![i as int] + spec_init_positions(actions@, i + 1)));
            }
        }
        i = i + 1;
    }
    proof {
        assert(idxs@.map_values(|x: usize| x as int) + Seq::<int>::empty() =~= idxs@.map_values(
            |x: usize| x as int,
        ));
        assert(idxs@.map_values(|x: usize| x as int) == inits);
    }
    let mut r: Vec<(usize, usize)> = Vec::new();
    let mut k: usize = 0;
    while k < idxs.len()
        invariant
            k <= idxs@.len(),
            idxs@.map_values(|x: usize| x as int) == inits,
            r@.len() == k,
            forall|q: int| 0 <= q < k ==> (#[trigger] r@[q]).0 == inits[q],
            forall|q: int|
                0 <= q < k ==> (#[trigger] r@[q]).1 == (if q + 1 < inits.len() {
                    inits[q + 1]
                } else {
                    actions@.len() as int
                }),
        decreases idxs@.len() - k,
    {
        let end = if k + 1 < idxs.len() {
            idxs[k + 1]
        } else {
            actions.len()
        };
        r.push((idxs[k], end));
        k = k + 1;
    }
    r
}

/// The position of the last terminal action, if any.
pub open spec fn spec_last_terminal(s: Seq<Action>) -> Option<int>
    decreases s.len(),
{
    if s.len() == 0 {
        None
    } else if s.last() matches Action::AGARI(..) || s.last() matches Action::RYUUKYOKU(..) {
        Some(s.len() - 1)
    } else {
        spec_last_terminal(s.drop_last())
    }
}

/// The final standing carried by a terminal action, if any.
pub open spec fn spec_owari_of(a: Action) -> Option<(Vec<GamePoint>, Vec<String>)> {
    match a {
        Action::AGARI(x) => x.owari,
        Action::RYUUKYOKU(x) => x.owari,
        _ => None,
    }
}

/// Scans backward for the most recent terminal action and takes its
/// embedded final standing; a terminal action without one, or a log
/// without terminal actions, is refused.
pub fn find_final_result(actions: &Vec<Action>) -> (r: ConvResult<(Vec<GamePoint>, Vec<String>)>)
    ensures
        (spec_last_terminal(actions@) is None ==> r == Err::<(Vec<GamePoint>, Vec<String>),
            ConvError,
        >(ConvError::NotFoundFinalResult)),
        (spec_last_terminal(actions@) matches Some(ix) ==> match spec_owari_of(actions@[ix]) {
            None => r == Err::<(Vec<GamePoint>, Vec<String>), ConvError>(
                ConvError::InvalidRoundFormat,
            ),
            Some(o) => r matches Ok(p) && p.0@ == o@.0 && p.1@.len() == o@.1.len() && (forall|q: int|
                0 <= q < o@.1.len() ==> #[trigger] p.1@[q]@ == o@.1[q]@),
        }),
{
    let mut i: usize = actions.len();
    proof {
        assert(actions@.subrange(0, actions@.len() as int) =~= actions@);
    }
    while i > 0
        invariant
            i <= actions@.len(),
            spec_last_terminal(actions@) == spec_last_terminal(actions@.subrange(0, i as int)),
        decreases i,
    {
        proof {
            assert(actions@.subrange(0, i as int).last() == actions@[i - 1]);
            assert(actions@.subrange(0, i as int).drop_last() =~= actions@.subrange(0, i - 1));
        }
        i = i - 1;
        match &actions[i] {
            Action::AGARI(x) => {
                match &x.owari {
                    Some(o) => {
                        let pts = clone_i32_vec(&o.0);
                        let res = clone_string_vec(&o.1);
                        return Ok((pts, res));
                    }
                    None => {
                        return Err(ConvError::InvalidRoundFormat);
                    }
                }
            }
            Action::RYUUKYOKU(x) => {
                match &x.owari {
                    Some(o) => {
                        let pts = clone_i32_vec(&o.0);
                        let res = clone_string_vec(&o.1);
                        return Ok((pts, res));
                    }
                    None => {
                        return Err(ConvError::InvalidRoundFormat);
                    }
                }
            }
            _ => {}
        }
    }
    proof {
        assert(actions@.subrange(0, 0) =~= Seq::<Action>::empty());
    }
    Err(ConvError::NotFoundFinalResult)
}

fn clone_i32_vec(v: &Vec<i32>) -> (r: Vec<i32>)
    ensures
        r@ == v@,
{
    let mut r: Vec<i32> = Vec::new();
    let mut i: usize = 0;
    while i < v.len()
        invariant
            i <= v@.len(),
            r@ == v@.subrange(0, i as int),
        decreases v@.len() - i,
    {
        r.push(v[i]);
        proof {
            assert(v@.subrange(0, i + 1) =~= v@.subrange(0, i as int).push(v@[i as int]));
        }
        i = i + 1;
    }
    proof {
        assert(v@.subrange(0, v@.len() as int) =~= v@);
    }
    r
}

fn clone_string_vec(v: &Vec<String>) -> (r: Vec<String>)
    ensures
        r@.len() == v@.len(),
        forall|k: int| 0 <= k < v@.len() ==> #[trigger] r@[k]@ == v@[k]@,
{
    let mut r: Vec<String> = Vec::new();
    let mut i: usize = 0;
    while i < v.len()
        invariant
            i <= v@.len(),
            r@.len() == i,
            forall|k: int| 0 <= k < i ==> #[trigger] r@[k]@ == v@[k]@,
        decreases v@.len() - i,
    {
        r.push(v[i].clone());
        i = i + 1;
    }
    r
}

/// The grade word of each platform grade.
pub open spec fn spec_dan_text(d: TenhouRank) -> Seq<char> {
    match d {
        TenhouRank::Newcomer => "新人"@,
        TenhouRank::Kyu9 => "９級"@,
        TenhouRank::Kyu8 => "８級"@,
        TenhouRank::Kyu7 => "７級"@,
        TenhouRank::Kyu6 => "６級"@,
        TenhouRank::Kyu5 => "５級"@,
        TenhouRank::Kyu4 => "４級"@,
        TenhouRank::Kyu3 => "３級"@,
        TenhouRank::Kyu2 => "２級"@,
        TenhouRank::Kyu1 => "１級"@,
        TenhouRank::Dan1 => "初段"@,
        TenhouRank::Dan2 => "二段"@,
        TenhouRank::Dan3 => "三段"@,
        TenhouRank::Dan4 => "四段"@,
        TenhouRank::Dan5 => "五段"@,
        TenhouRank::Dan6 => "六段"@,
        TenhouRank::Dan7 => "七段"@,
        TenhouRank::Dan8 => "八段"@,
        TenhouRank::Dan9 => "九段"@,
        TenhouRank::Dan10 => "十段"@,
        TenhouRank::Tenhou => "天鳳"@,
    }
}

/// The grade word of a platform grade.
pub fn conv_dan(dan: &TenhouRank) -> (r: String)
    ensures
        r@ == spec_dan_text(*dan),
{
    let t: &str = match dan {
        TenhouRank::Newcomer => "新人",
        TenhouRank::Kyu9 => "９級",
        TenhouRank::Kyu8 => "８級",
        TenhouRank::Kyu7 => "７級",
        TenhouRank::Kyu6 => "６級",
        TenhouRank::Kyu5 => "５級",
        TenhouRank::Kyu4 => "４級",
        TenhouRank::Kyu3 => "３級",
        TenhouRank::Kyu2 => "２級",
        TenhouRank::Kyu1 => "１級",
        TenhouRank::Dan1 => "初段",
        TenhouRank::Dan2 => "二段",
        TenhouRank::Dan3 => "三段",
        TenhouRank::Dan4 => "四段",
        TenhouRank::Dan5 => "五段",
        TenhouRank::Dan6 => "六段",
        TenhouRank::Dan7 => "七段",
        TenhouRank::Dan8 => "八段",
        TenhouRank::Dan9 => "九段",
        TenhouRank::Dan10 => "十段",
        TenhouRank::Tenhou => "天鳳",
    };
    t.to_owned()
}

/// The displayed rule text: room grade, session length, open-tanyao and
/// red-five marks, and the speed mark.
pub open spec fn spec_rule_disp(s: GameSettings) -> Seq<char> {
    (match s.room {
        TenhouRoom::Ippan => "般"@,
        TenhouRoom::Joukyu => "上"@,
        TenhouRoom::Tokujou => "特"@,
        TenhouRoom::Houou => "鳳"@,
    }) + (if s.hanchan {
        "南"@
    } else {
        "東"@
    }) + (if s.no_kuitan {
        ""@
    } else {
        "喰"@
    }) + (if s.no_red {
        ""@
    } else {
        "赤"@
    }) + (if s.soku {
        "速"@
    } else {
        ""@
    })
}

/// How a rule record relates to the table settings.
pub open spec fn spec_rule_matches(s: GameSettings, r: Rule) -> bool {
    &&& r.disp@ == spec_rule_disp(s)
    &&& r.aka53 == !s.no_red
    &&& r.aka52 == !s.no_red
    &&& r.aka51 == !s.no_red
}

/// The rule record of the table settings.
pub fn conv_rule(settings: &GameSettings) -> (r: ConvResult<Rule>)
    ensures
        r matches Ok(rule) && spec_rule_matches(*settings, rule),
{
    let room_str: &str = match settings.room {
        TenhouRoom::Ippan => "般",
        TenhouRoom::Joukyu => "上",
        TenhouRoom::Tokujou => "特",
        TenhouRoom::Houou => "鳳",
    };
    let mut disp = room_str.to_owned();
    disp.append(if settings.hanchan {
        "南"
    } else {
        "東"
    });
    disp.append(
        if settings.no_kuitan {
            ""
        } else {
            "喰"
        },
    );
    disp.append(if settings.no_red {
        ""
    } else {
        "赤"
    });
    disp.append(if settings.soku {
        "速"
    } else {
        ""
    });
    Ok(
        Rule {
            disp,
            aka53: !settings.no_red,
            aka52: !settings.no_red,
            aka51: !settings.no_red,
        },
    )
}

/// The direction of the other encoding with the same meaning.
pub open spec fn spec_conv_dir(d: crate::mjlog::model::Direction) -> Direction {
    match d {
        crate::mjlog::model::Direction::SelfSeat => Direction::SelfSeat,
        crate::mjlog::model::Direction::Shimocha => Direction::Shimocha,
        crate::mjlog::model::Direction::Kamicha => Direction::Kamicha,
        crate::mjlog::model::Direction::Toimen => Direction::Toimen,
    }
}

pub fn conv_dir(d: crate::mjlog::model::Direction) -> (r: Direction)
    ensures
        r == spec_conv_dir(d),
{
    match d {
        crate::mjlog::model::Direction::SelfSeat => Direction::SelfSeat,
        crate::mjlog::model::Direction::Shimocha => Direction::Shimocha,
        crate::mjlog::model::Direction::Kamicha => Direction::Kamicha,
        crate::mjlog::model::Direction::Toimen => Direction::Toimen,
    }
}

/// The yaku of the other encoding with the same meaning.
pub open spec fn spec_conv_yaku(x: crate::mjlog::model::Yaku) -> crate::tenhou::model::Yaku {
    match x {
        crate::mjlog::model::Yaku::MenzenTsumo => crate::tenhou::model::Yaku::MenzenTsumo,
        crate::mjlog::model::Yaku::Riichi => crate::tenhou::model::Yaku::Riichi,
        crate::mjlog::model::Yaku::Ippatsu => crate::tenhou::model::Yaku::Ippatsu,
        crate::mjlog::model::Yaku::Chankan => crate::tenhou::model::Yaku::Chankan,
        crate::mjlog::model::Yaku::Rinshankaihou => crate::tenhou::model::Yaku::Rinshankaihou,
        crate::mjlog::model::Yaku::HaiteiTsumo => crate::tenhou::model::Yaku::HaiteiTsumo,
        crate::mjlog::model::Yaku::HouteiRon => crate::tenhou::model::Yaku::HouteiRon,
        crate::mjlog::model::Yaku::Pinfu => crate::tenhou::model::Yaku::Pinfu,
        crate::mjlog::model::Yaku::Tanyao => crate::tenhou::model::Yaku::Tanyao,
        crate::mjlog::model::Yaku::Iipeikou => crate::tenhou::model::Yaku::Iipeikou,
        crate::mjlog::model::Yaku::PlayerWindTon => crate::tenhou::model::Yaku::PlayerWindTon,
        crate::mjlog::model::Yaku::PlayerWindNan => crate::tenhou::model::Yaku::PlayerWindNan,
        crate::mjlog::model::Yaku::PlayerWindSha => crate::tenhou::model::Yaku::PlayerWindSha,
        crate::mjlog::model::Yaku::PlayerWindPei => crate::tenhou::model::Yaku::PlayerWindPei,
        crate::mjlog::model::Yaku::FieldWindTon => crate::tenhou::model::Yaku::FieldWindTon,
        crate::mjlog::model::Yaku::FieldWindNan => crate::tenhou::model::Yaku::FieldWindNan,
        crate::mjlog::model::Yaku::FieldWindSha => crate::tenhou::model::Yaku::FieldWindSha,
        crate::mjlog::model::Yaku::FieldWindPei => crate::tenhou::model::Yaku::FieldWindPei,
        crate::mjlog::model::Yaku::YakuhaiHaku => crate::tenhou::model::Yaku::YakuhaiHaku,
        crate::mjlog::model::Yaku::YakuhaiHatsu => crate::tenhou::model::Yaku::YakuhaiHatsu,
        crate::mjlog::model::Yaku::YakuhaiChun => crate::tenhou::model::Yaku::YakuhaiChun,
        crate::mjlog::model::Yaku::DoubleRiichi => crate::tenhou::model::Yaku::DoubleRiichi,
        crate::mjlog::model::Yaku::Chiitoitsu => crate::tenhou::model::Yaku::Chiitoitsu,
        crate::mjlog::model::Yaku::Chanta => crate::tenhou::model::Yaku::Chanta,
        crate::mjlog::model::Yaku::Ikkitsuukan => crate::tenhou::model::Yaku::Ikkitsuukan,
        crate::mjlog::model::Yaku::SansyokuDoujun => crate::tenhou::model::Yaku::SansyokuDoujun,
        crate::mjlog::model::Yaku::SanshokuDoukou => crate::tenhou::model::Yaku::SanshokuDoukou,
        crate::mjlog::model::Yaku::Sankantsu => crate::tenhou::model::Yaku::Sankantsu,
        crate::mjlog::model::Yaku::Toitoi => crate::tenhou::model::Yaku::Toitoi,
        crate::mjlog::model::Yaku::Sanannkou => crate::tenhou::model::Yaku::Sanannkou,
        crate::mjlog::model::Yaku::Shousangen => crate::tenhou::model::Yaku::Shousangen,
        crate::mjlog::model::Yaku::Honroutou => crate::tenhou::model::Yaku::Honroutou,
        crate::mjlog::model::Yaku::Ryanpeikou => crate::tenhou::model::Yaku::Ryanpeikou,
        crate::mjlog::model::Yaku::Junchan => crate::tenhou::model::Yaku::Junchan,
        crate::mjlog::model::Yaku::Honiisou => crate::tenhou::model::Yaku::Honiisou,
        crate::mjlog::model::Yaku::Chiniisou => crate::tenhou::model::Yaku::Chiniisou,
        crate::mjlog::model::Yaku::Renhou => crate::tenhou::model::Yaku::Renhou,
        crate::mjlog::model::Yaku::Tenhou => crate::tenhou::model::Yaku::Tenhou,
        crate::mjlog::model::Yaku::Chiihou => crate::tenhou::model::Yaku::Chiihou,
        crate::mjlog::model::Yaku::Daisangen => crate::tenhou::model::Yaku::Daisangen,
        crate::mjlog::model::Yaku::Suuankou => crate::tenhou::model::Yaku::Suuankou,
        crate::mjlog::model::Yaku::SuuankouTanki => crate::tenhou::model::Yaku::SuuankouTanki,
        crate::mjlog::model::Yaku::Tsuuiisou => crate::tenhou::model::Yaku::Tsuuiisou,
        crate::mjlog::model::Yaku::Ryuuiisou => crate::tenhou::model::Yaku::Ryuuiisou,
        crate::mjlog::model::Yaku::Chinroutou => crate::tenhou::model::Yaku::Chinroutou,
        crate::mjlog::model::Yaku::Tyuurenpoutou => crate::tenhou::model::Yaku::Tyuurenpoutou,
        crate::mjlog::model::Yaku::Tyuurenpoutou9 => crate::tenhou::model::Yaku::Tyuurenpoutou9,
        crate::mjlog::model::Yaku::Kokushimusou => crate::tenhou::model::Yaku::Kokushimusou,
        crate::mjlog::model::Yaku::Kokushimusou13 => crate::tenhou::model::Yaku::Kokushimusou13,
        crate::mjlog::model::Yaku::Daisuushii => crate::tenhou::model::Yaku::Daisuushii,
        crate::mjlog::model::Yaku::Syousuushii => crate::tenhou::model::Yaku::Syousuushii,
        crate::mjlog::model::Yaku::Suukantsu => crate::tenhou::model::Yaku::Suukantsu,
        crate::mjlog::model::Yaku::Dora => crate::tenhou::model::Yaku::Dora,
        crate::mjlog::model::Yaku::UraDora => crate::tenhou::model::Yaku::UraDora,
        crate::mjlog::model::Yaku::AkaDora => crate::tenhou::model::Yaku::AkaDora,
    }
}

pub fn conv_yaku(x: crate::mjlog::model::Yaku) -> (r: crate::tenhou::model::Yaku)
    ensures
        r == spec_conv_yaku(x),
{
    match x {
        crate::mjlog::model::Yaku::MenzenTsumo => crate::tenhou::model::Yaku::MenzenTsumo,
        crate::mjlog::model::Yaku::Riichi => crate::tenhou::model::Yaku::Riichi,
        crate::mjlog::model::Yaku::Ippatsu => crate::tenhou::model::Yaku::Ippatsu,
        crate::mjlog::model::Yaku::Chankan => crate::tenhou::model::Yaku::Chankan,
        crate::mjlog::model::Yaku::Rinshankaihou => crate::tenhou::model::Yaku::Rinshankaihou,
        crate::mjlog::model::Yaku::HaiteiTsumo => crate::tenhou::model::Yaku::HaiteiTsumo,
        crate::mjlog::model::Yaku::HouteiRon => crate::tenhou::model::Yaku::HouteiRon,
        crate::mjlog::model::Yaku::Pinfu => crate::tenhou::model::Yaku::Pinfu,
        crate::mjlog::model::Yaku::Tanyao => crate::tenhou::model::Yaku::Tanyao,
        crate::mjlog::model::Yaku::Iipeikou => crate::tenhou::model::Yaku::Iipeikou,
        crate::mjlog::model::Yaku::PlayerWindTon => crate::tenhou::model::Yaku::PlayerWindTon,
        crate::mjlog::model::Yaku::PlayerWindNan => crate::tenhou::model::Yaku::PlayerWindNan,
        crate::mjlog::model::Yaku::PlayerWindSha => crate::tenhou::model::Yaku::PlayerWindSha,
        crate::mjlog::model::Yaku::PlayerWindPei => crate::tenhou::model::Yaku::PlayerWindPei,
        crate::mjlog::model::Yaku::FieldWindTon => crate::tenhou::model::Yaku::FieldWindTon,
        crate::mjlog::model::Yaku::FieldWindNan => crate::tenhou::model::Yaku::FieldWindNan,
        crate::mjlog::model::Yaku::FieldWindSha => crate::tenhou::model::Yaku::FieldWindSha,
        crate::mjlog::model::Yaku::FieldWindPei => crate::tenhou::model::Yaku::FieldWindPei,
        crate::mjlog::model::Yaku::YakuhaiHaku => crate::tenhou::model::Yaku::YakuhaiHaku,
        crate::mjlog::model::Yaku::YakuhaiHatsu => crate::tenhou::model::Yaku::YakuhaiHatsu,
        crate::mjlog::model::Yaku::YakuhaiChun => crate::tenhou::model::Yaku::YakuhaiChun,
        crate::mjlog::model::Yaku::DoubleRiichi => crate::tenhou::model::Yaku::DoubleRiichi,
        crate::mjlog::model::Yaku::Chiitoitsu => crate::tenhou::model::Yaku::Chiitoitsu,
        crate::mjlog::model::Yaku::Chanta => crate::tenhou::model::Yaku::Chanta,
        crate::mjlog::model::Yaku::Ikkitsuukan => crate::tenhou::model::Yaku::Ikkitsuukan,
        crate::mjlog::model::Yaku::SansyokuDoujun => crate::tenhou::model::Yaku::SansyokuDoujun,
        crate::mjlog::model::Yaku::SanshokuDoukou => crate::tenhou::model::Yaku::SanshokuDoukou,
        crate::mjlog::model::Yaku::Sankantsu => crate::tenhou::model::Yaku::Sankantsu,
        crate::mjlog::model::Yaku::Toitoi => crate::tenhou::model::Yaku::Toitoi,
        crate::mjlog::model::Yaku::Sanannkou => crate::tenhou::model::Yaku::Sanannkou,
        crate::mjlog::model::Yaku::Shousangen => crate::tenhou::model::Yaku::Shousangen,
        crate::mjlog::model::Yaku::Honroutou => crate::tenhou::model::Yaku::Honroutou,
        crate::mjlog::model::Yaku::Ryanpeikou => crate::tenhou::model::Yaku::Ryanpeikou,
        crate::mjlog::model::Yaku::Junchan => crate::tenhou::model::Yaku::Junchan,
        crate::mjlog::model::Yaku::Honiisou => crate::tenhou::model::Yaku::Honiisou,
        crate::mjlog::model::Yaku::Chiniisou => crate::tenhou::model::Yaku::Chiniisou,
        crate::mjlog::model::Yaku::Renhou => crate::tenhou::model::Yaku::Renhou,
        crate::mjlog::model::Yaku::Tenhou => crate::tenhou::model::Yaku::Tenhou,
        crate::mjlog::model::Yaku::Chiihou => crate::tenhou::model::Yaku::Chiihou,
        crate::mjlog::model::Yaku::Daisangen => crate::tenhou::model::Yaku::Daisangen,
        crate::mjlog::model::Yaku::Suuankou => crate::tenhou::model::Yaku::Suuankou,
        crate::mjlog::model::Yaku::SuuankouTanki => crate::tenhou::model::Yaku::SuuankouTanki,
        crate::mjlog::model::Yaku::Tsuuiisou => crate::tenhou::model::Yaku::Tsuuiisou,
        crate::mjlog::model::Yaku::Ryuuiisou => crate::tenhou::model::Yaku::Ryuuiisou,
        crate::mjlog::model::Yaku::Chinroutou => crate::tenhou::model::Yaku::Chinroutou,
        crate::mjlog::model::Yaku::Tyuurenpoutou => crate::tenhou::model::Yaku::Tyuurenpoutou,
        crate::mjlog::model::Yaku::Tyuurenpoutou9 => crate::tenhou::model::Yaku::Tyuurenpoutou9,
        crate::mjlog::model::Yaku::Kokushimusou => crate::tenhou::model::Yaku::Kokushimusou,
        crate::mjlog::model::Yaku::Kokushimusou13 => crate::tenhou::model::Yaku::Kokushimusou13,
        crate::mjlog::model::Yaku::Daisuushii => crate::tenhou::model::Yaku::Daisuushii,
        crate::mjlog::model::Yaku::Syousuushii => crate::tenhou::model::Yaku::Syousuushii,
        crate::mjlog::model::Yaku::Suukantsu => crate::tenhou::model::Yaku::Suukantsu,
        crate::mjlog::model::Yaku::Dora => crate::tenhou::model::Yaku::Dora,
        crate::mjlog::model::Yaku::UraDora => crate::tenhou::model::Yaku::UraDora,
        crate::mjlog::model::Yaku::AkaDora => crate::tenhou::model::Yaku::AkaDora,
    }
}

/// The draw reason of the other encoding; an untagged draw is plain.
pub open spec fn spec_conv_reason(
    x: Option<crate::mjlog::model::ExtraRyuukyokuReason>,
) -> ExtraRyuukyokuReason {
    match x {
        Some(crate::mjlog::model::ExtraRyuukyokuReason::KyuusyuKyuuhai) => ExtraRyuukyokuReason::KyuusyuKyuuhai,
        Some(crate::mjlog::model::ExtraRyuukyokuReason::SuuchaRiichi) => ExtraRyuukyokuReason::SuuchaRiichi,
        Some(crate::mjlog::model::ExtraRyuukyokuReason::SanchaHoura) => ExtraRyuukyokuReason::SanchaHoura,
        Some(crate::mjlog::model::ExtraRyuukyokuReason::SuukanSanra) => ExtraRyuukyokuReason::SuukanSanra,
        Some(crate::mjlog::model::ExtraRyuukyokuReason::SuufuuRenda) => ExtraRyuukyokuReason::SuufuuRenda,
        Some(crate::mjlog::model::ExtraRyuukyokuReason::NagashiMangan) => ExtraRyuukyokuReason::NagashiMangan,
        None => ExtraRyuukyokuReason::Ryuukyoku,
    }
}

pub fn conv_extra_ryuukyoku_reason(x: &Option<crate::mjlog::model::ExtraRyuukyokuReason>) -> (r:
    ExtraRyuukyokuReason)
    ensures
        r == spec_conv_reason(*x),
{
    match x {
        Some(crate::mjlog::model::ExtraRyuukyokuReason::KyuusyuKyuuhai) => ExtraRyuukyokuReason::KyuusyuKyuuhai,
        Some(crate::mjlog::model::ExtraRyuukyokuReason::SuuchaRiichi) => ExtraRyuukyokuReason::SuuchaRiichi,
        Some(crate::mjlog::model::ExtraRyuukyokuReason::SanchaHoura) => ExtraRyuukyokuReason::SanchaHoura,
        Some(crate::mjlog::model::ExtraRyuukyokuReason::SuukanSanra) => ExtraRyuukyokuReason::SuukanSanra,
        Some(crate::mjlog::model::ExtraRyuukyokuReason::SuufuuRenda) => ExtraRyuukyokuReason::SuufuuRenda,
        Some(crate::mjlog::model::ExtraRyuukyokuReason::NagashiMangan) => ExtraRyuukyokuReason::NagashiMangan,
        None => ExtraRyuukyokuReason::Ryuukyoku,
    }
}

/// Everything but a zero-valued hidden-bonus placeholder entry.
pub open spec fn spec_is_not_ura_zero(x: YakuPair) -> bool {
    !(x.yaku == crate::tenhou::model::Yaku::UraDora && x.level == YakuLevel::Normal(0))
}

pub fn is_not_ura_zero(x: &YakuPair) -> (r: bool)
    ensures
        r == spec_is_not_ura_zero(*x),
{
    match (x.yaku, x.level) {
        (crate::tenhou::model::Yaku::UraDora, YakuLevel::Normal(n)) => n != 0,
        _ => true,
    }
}

/// The converted yaku list of a graduated win, without zero-valued
/// hidden-bonus placeholders.
pub open spec fn spec_conv_yaku_vec(vs: Seq<(crate::mjlog::model::Yaku, u8)>) -> Seq<YakuPair>
    decreases vs.len(),
{
    if vs.len() == 0 {
        Seq::empty()
    } else {
        let p = YakuPair { yaku: spec_conv_yaku(vs[0].0), level: YakuLevel::Normal(vs[0].1) };
        let rest = spec_conv_yaku_vec(vs.drop_first());
        if spec_is_not_ura_zero(p) {
            seq![p] + rest
        } else {
            rest
        }
    }
}

pub fn conv_yaku_vec(vs: &Vec<(crate::mjlog::model::Yaku, u8)>) -> (r: Vec<YakuPair>)
    ensures
        r@ == spec_conv_yaku_vec(vs@),
{
    let mut out: Vec<YakuPair> = Vec::new();
    let mut i: usize = 0;
    proof {
        assert(vs@.skip(0) =~= vs@);
    }
    while i < vs.len()
        invariant
            i <= vs@.len(),
            out@ + spec_conv_yaku_vec(vs@.skip(i as int)) == spec_conv_yaku_vec(vs@),
        decreases vs@.len() - i,
    {
        let p = YakuPair { yaku: conv_yaku(vs[i].0), level: YakuLevel::Normal(vs[i].1) };
        proof {
            assert(vs@.skip(i as int)[0] == vs@[i as int]);
            assert(vs@.skip(i as int).drop_first() =~= vs@.skip(i + 1));
        }
        if is_not_ura_zero(&p) {
            let ghost old_out = out@;
            out.push(p);
            proof {
                assert(old_out + (seq![p] + spec_conv_yaku_vec(vs@.skip(i + 1))) =~= out@
                    + spec_conv_yaku_vec(vs@.skip(i + 1)));
            }
        }
        i = i + 1;
    }
    proof {
        assert(spec_conv_yaku_vec(vs@.skip(vs@.len() as int)) =~= Seq::<YakuPair>::empty());
        assert(out@ + Seq::<YakuPair>::empty() =~= out@);
    }
    out
}

/// The yakuman list of a limit win, one count each.
pub open spec fn spec_conv_yakuman_vec(vs: Seq<crate::mjlog::model::Yaku>) -> Seq<YakuPair> {
    vs.map_values(
        |y: crate::mjlog::model::Yaku| YakuPair {
            yaku: spec_conv_yaku(y),
            level: YakuLevel::Yakuman(1),
        },
    )
}

pub fn conv_yakuman_vec(vs: &Vec<crate::mjlog::model::Yaku>) -> (r: Vec<YakuPair>)
    ensures
        r@ == spec_conv_yakuman_vec(vs@),
{
    let mut out: Vec<YakuPair> = Vec::new();
    let mut i: usize = 0;
    while i < vs.len()
        invariant
            i <= vs@.len(),
            out@.len() == i,
            forall|k: int|
                0 <= k < i ==> #[trigger] out@[k] == (YakuPair {
                    yaku: spec_conv_yaku(vs@[k]),
                    level: YakuLevel::Yakuman(1),
                }),
        decreases vs@.len() - i,
    {
        out.push(YakuPair { yaku: conv_yaku(vs[i]), level: YakuLevel::Yakuman(1) });
        i = i + 1;
    }
    proof {
        assert(out@ =~= spec_conv_yakuman_vec(vs@));
    }
    out
}

/// The total level of a yaku list: han of a graduated win, count of a
/// limit win.
pub open spec fn spec_pair_sum(ps: Seq<YakuPair>) -> int
    decreases ps.len(),
{
    if ps.len() == 0 {
        0
    } else {
        crate::tenhou::model::spec_level_number(ps[0].level) + spec_pair_sum(ps.drop_first())
    }
}

pub proof fn lemma_pair_sum_nonneg(ps: Seq<YakuPair>)
    ensures
        spec_pair_sum(ps) >= 0,
    decreases ps.len(),
{
    if ps.len() > 0 {
        lemma_pair_sum_nonneg(ps.drop_first());
    }
}

/// Sums the levels of a yaku list.
pub fn pair_sum(ps: &Vec<YakuPair>) -> (r: u8)
    requires
        spec_pair_sum(ps@) <= 255,
    ensures
        r == spec_pair_sum(ps@),
{
    let mut acc: u8 = 0;
    let mut i: usize = 0;
    proof {
        assert(ps@.skip(0) =~= ps@);
    }
    while i < ps.len()
        invariant
            i <= ps@.len(),
            spec_pair_sum(ps@) <= 255,
            acc + spec_pair_sum(ps@.skip(i as int)) == spec_pair_sum(ps@),
        decreases ps@.len() - i,
    {
        proof {
            assert(ps@.skip(i as int)[0] == ps@[i as int]);
            assert(ps@.skip(i as int).drop_first() =~= ps@.skip(i + 1));
            lemma_pair_sum_nonneg(ps@.skip(i + 1));
        }
        acc = acc + ps[i].level.get_number();
        i = i + 1;
    }
    proof {
        assert(spec_pair_sum(ps@.skip(ps@.len() as int)) == 0);
    }
    acc
}

/// The score of a graduated win, by self-draw and dealer status.
pub open spec fn spec_ranked_normal(tsumo: bool, dealer: bool, fu: u8, han: u8) -> RankedScore {
    if tsumo && dealer {
        spec_oya_tsumo(fu, han)
    } else if tsumo {
        spec_ko_tsumo(fu, han)
    } else if dealer {
        spec_oya_ron(fu, han)
    } else {
        spec_ko_ron(fu, han)
    }
}

pub fn conv_ranked_score_normal(v: &ActionAGARI, han: u8, oya: Player) -> (r: RankedScore)
    ensures
        r == spec_ranked_normal(v.who == v.from_who, v.who == oya, v.fu, han),
{
    match (v.is_tsumo(), v.who.0 == oya.0) {
        (true, true) => get_oya_tsumo(v.fu, han),
        (true, false) => get_ko_tsumo(v.fu, han),
        (false, true) => get_oya_ron(v.fu, han),
        (false, false) => get_ko_ron(v.fu, han),
    }
}

/// The score of a limit win, by self-draw and dealer status.
pub open spec fn spec_ranked_yakuman(tsumo: bool, dealer: bool, num: u8) -> RankedScore {
    if tsumo && dealer {
        RankedScore { rank: ScoreRank::Yakuman, score: Score::OyaTsumo((16000 * num as int) as i32) }
    } else if tsumo {
        RankedScore {
            rank: ScoreRank::Yakuman,
            score: Score::KoTsumo((8000 * num as int) as i32, (16000 * num as int) as i32),
        }
    } else if dealer {
        RankedScore { rank: ScoreRank::Yakuman, score: Score::Ron((48000 * num as int) as i32) }
    } else {
        RankedScore { rank: ScoreRank::Yakuman, score: Score::Ron((32000 * num as int) as i32) }
    }
}

pub fn conv_ranked_score_yakuman(v: &ActionAGARI, num: u8, oya: Player) -> (r: RankedScore)
    ensures
        r == spec_ranked_yakuman(v.who == v.from_who, v.who == oya, num),
{
    match (v.is_tsumo(), v.who.0 == oya.0) {
        (true, true) => get_oya_tsumo_yakuman(num),
        (true, false) => get_ko_tsumo_yakuman(num),
        (false, true) => get_oya_ron_yakuman(num),
        (false, false) => get_ko_ron_yakuman(num),
    }
}

/// The range every score must lie in before the hundredfold scaling.
pub open spec fn spec_pt_ok(x: int) -> bool {
    -21474836 <= x <= 21474836
}

pub open spec fn spec_points_ok(v: Seq<i32>) -> bool {
    forall|k: int| 0 <= k < v.len() ==> spec_pt_ok(#[trigger] v[k] as int)
}

/// Scales score units into points.
pub fn scale_points(v: &Vec<i32>) -> (r: Vec<i32>)
    requires
        spec_points_ok(v@),
    ensures
        r@ == v@.map_values(|x: i32| (100 * x as int) as i32),
{
    let mut out: Vec<i32> = Vec::new();
    let mut i: usize = 0;
    while i < v.len()
        invariant
            i <= v@.len(),
            spec_points_ok(v@),
            out@.len() == i,
            forall|k: int| 0 <= k < i ==> #[trigger] out@[k] == (100 * v@[k] as int) as i32,
        decreases v@.len() - i,
    {
        proof {
            assert(spec_pt_ok(v@[i as int] as int));
        }
        out.push(v[i] * 100);
        i = i + 1;
    }
    proof {
        assert(out@ =~= v@.map_values(|x: i32| (100 * x as int) as i32));
    }
    out
}

/// What a winning record must satisfy for the conversion to be total:
/// bounded score deltas, at least one listed yaku or yakuman, and level
/// totals that fit the scoring engine.
pub open spec fn spec_agari_wf(x: ActionAGARI) -> bool {
    &&& spec_points_ok(x.delta_points@)
    &&& (x.yaku@.len() > 0 || x.yakuman@.len() > 0)
    &&& spec_pair_sum(spec_conv_yaku_vec(x.yaku@)) <= 255
    &&& x.yakuman@.len() <= 255
}

/// How a converted winning record relates to its action.
pub open spec fn spec_agari_rel(v: ActionAGARI, oya: Player, a: Agari) -> bool {
    &&& a.delta_points@ == v.delta_points@.map_values(|x: i32| (100 * x as int) as i32)
    &&& a.who == v.who.0
    &&& a.from_who == v.from_who.0
    &&& a.pao_who == (match v.pao_who {
        Some(w) => w.0,
        None => v.who.0,
    })
    &&& (if v.yaku@.len() > 0 {
        a.yaku@ == spec_conv_yaku_vec(v.yaku@) && a.ranked_score == spec_ranked_normal(
            v.who == v.from_who,
            v.who == oya,
            v.fu,
            spec_pair_sum(spec_conv_yaku_vec(v.yaku@)) as u8,
        )
    } else {
        a.yaku@ == spec_conv_yakuman_vec(v.yakuman@) && a.ranked_score == spec_ranked_yakuman(
            v.who == v.from_who,
            v.who == oya,
            v.yakuman@.len() as u8,
        )
    })
}

/// One winning record: the yaku list decides between the graduated and
/// the limit scoring path; levels are totalled over the listed yaku.
pub fn conv_agari(v: &ActionAGARI, oya: Player) -> (r: ConvResult<Agari>)
    requires
        spec_agari_wf(*v),
    ensures
        r matches Ok(a) && spec_agari_rel(*v, oya, a),
{
    let delta_points = scale_points(&v.delta_points);
    let who = v.who.to_u8();
    let from_who = v.from_who.to_u8();
    let pao_who = match &v.pao_who {
        Some(w) => w.to_u8(),
        None => v.who.to_u8(),
    };

    if v.yaku.len() > 0 {
        let yaku = conv_yaku_vec(&v.yaku);
        let han = pair_sum(&yaku);
        let ranked_score = conv_ranked_score_normal(v, han, oya);
        Ok(Agari { delta_points, who, from_who, pao_who, ranked_score, yaku })
    } else {
        let yaku = conv_yakuman_vec(&v.yakuman);
        let num = (v.yakuman.len() as u8);
        let ranked_score = conv_ranked_score_yakuman(v, num, oya);
        Ok(Agari { delta_points, who, from_who, pao_who, ranked_score, yaku })
    }
}

/// Converts a list of ordinals, failing on the first invalid one.
pub open spec fn spec_tiles_of(hs: Seq<Hai>) -> Option<Seq<Tile>> {
    if forall|k: int| 0 <= k < hs.len() ==> spec_hai_to_tile(#[trigger] hs[k], true) is Some {
        Some(Seq::new(hs.len(), |k: int| spec_hai_to_tile(hs[k], true)->Some_0))
    } else {
        None
    }
}

pub fn conv_tiles(xs: &Vec<Hai>) -> (r: ConvResult<Vec<Tile>>)
    ensures
        (r matches Ok(v) ==> spec_tiles_of(xs@) == Some(v@)),
        (r is Err <==> spec_tiles_of(xs@) is None),
        (r is Err ==> r == Err::<Vec<Tile>, ConvError>(ConvError::InvalidTileFormat)),
{
    let mut out: Vec<Tile> = Vec::new();
    let mut i: usize = 0;
    while i < xs.len()
        invariant
            i <= xs@.len(),
            out@.len() == i,
            forall|k: int|
                0 <= k < i ==> spec_hai_to_tile(#[trigger] xs@[k], true) == Some(out@[k]),
        decreases xs@.len() - i,
    {
        match conv_hai_to_tile(xs[i], true) {
            Ok(t) => {
                out.push(t);
            }
            Err(_) => {
                proof {
                    assert(spec_hai_to_tile(xs@[i as int], true) is None);
                }
                return Err(ConvError::InvalidTileFormat);
            }
        }
        i = i + 1;
    }
    proof {
        assert(out@ =~= Seq::new(xs@.len(), |k: int| spec_hai_to_tile(xs@[k], true)->Some_0));
    }
    Ok(out)
}

/// The ordering key of a starting hand: tiles sort by code, with a red
/// five between its suit's normal five and six.
pub open spec fn spec_hand_key(t: Tile) -> int {
    if t.0 == 51 {
        151
    } else if t.0 == 52 {
        251
    } else if t.0 == 53 {
        351
    } else {
        t.0 * 10
    }
}

pub fn get_initial_hand_order(t: &Tile) -> (r: u32)
    ensures
        r == spec_hand_key(*t),
{
    match t.0 {
        51 => 151,
        52 => 251,
        53 => 351,
        x => x as u32 * 10,
    }
}

pub open spec fn spec_hand_sorted(s: Seq<Tile>) -> bool {
    forall|a: int, b: int| 0 <= a <= b < s.len() ==> spec_hand_key(s[a]) <= spec_hand_key(s[b])
}

proof fn lemma_seq_insert_multiset(s: Seq<Tile>, i: int, x: Tile)
    requires
        0 <= i <= s.len(),
    ensures
        s.insert(i, x).to_multiset() == s.to_multiset().insert(x),
{
    broadcast use vstd::seq_lib::group_to_multiset_ensures;

    let t = s.insert(i, x);
    assert(t.remove(i) =~= s);
    assert(t[i] == x);
    assert(t.remove(i).to_multiset() =~= t.to_multiset().remove(x));
    assert(t.to_multiset().contains(x)) by {
        assert(t.contains(x));
    }
    assert(t.to_multiset() =~= s.to_multiset().insert(x));
}

/// Sorts a starting hand by its display key, keeping the multiset of
/// tiles.
pub fn sort_hand(v: Vec<Tile>) -> (r: Vec<Tile>)
    ensures
        spec_hand_sorted(r@),
        r@.to_multiset() == v@.to_multiset(),
        r@.len() == v@.len(),
{
    broadcast use vstd::seq_lib::group_to_multiset_ensures;

    let mut out: Vec<Tile> = Vec::new();
    let mut i: usize = 0;
    proof {
        assert(v@.subrange(0, 0) =~= Seq::<Tile>::empty());
        assert(Seq::<Tile>::empty().to_multiset() =~= out@.to_multiset());
    }
    while i < v.len()
        invariant
            i <= v@.len(),
            out@.len() == i,
            spec_hand_sorted(out@),
            out@.to_multiset() == v@.subrange(0, i as int).to_multiset(),
        decreases v@.len() - i,
    {
        let x = v[i];
        let key = get_initial_hand_order(&x);
        let mut pos: usize = 0;
        while pos < out.len() && get_initial_hand_order(&out[pos]) <= key
            invariant
                pos <= out@.len(),
                key == spec_hand_key(x),
                spec_hand_sorted(out@),
                forall|k: int| 0 <= k < pos ==> spec_hand_key(#[trigger] out@[k]) <= spec_hand_key(
                    x,
                ),
            decreases out@.len() - pos,
        {
            pos = pos + 1;
        }
        let ghost old_out = out@;
        out.insert(pos, x);
        proof {
            lemma_seq_insert_multiset(old_out, pos as int, x);
            assert(v@.subrange(0, i + 1).drop_last() =~= v@.subrange(0, i as int));
            assert(v@.subrange(0, i + 1) =~= v@.subrange(0, i as int).push(v@[i as int]));
            v@.subrange(0, i as int).to_multiset_ensures();
            assert(v@.subrange(0, i as int).push(v@[i as int]).to_multiset() =~= v@.subrange(
                0,
                i as int,
            ).to_multiset().insert(x));
            assert(out@.to_multiset() =~= v@.subrange(0, i + 1).to_multiset());
            assert forall|a: int, b: int|
                0 <= a <= b < out@.len() implies spec_hand_key(out@[a]) <= spec_hand_key(
                out@[b],
            ) by {
                if pos < old_out.len() {
                    assert(spec_hand_key(old_out[pos as int]) > key);
                }
                if a < pos {
                    assert(out@[a] == old_out[a]);
                }
                if b < pos {
                    assert(out@[b] == old_out[b]);
                }
                if a > pos {
                    assert(out@[a] == old_out[a - 1]);
                }
                if b > pos {
                    assert(out@[b] == old_out[b - 1]);
                }
            }
        }
        i = i + 1;
    }
    proof {
        assert(v@.subrange(0, v@.len() as int) =~= v@);
    }
    out
}

/// The new-dora ordinals revealed within a range of actions.
pub open spec fn spec_dora_hais(s: Seq<Action>, i: int, end: int) -> Seq<Hai>
    decreases end - i,
    when 0 <= i <= end <= s.len()
{
    if i >= end {
        Seq::empty()
    } else {
        match s[i] {
            Action::DORA(x) => seq![x.hai] + spec_dora_hais(s, i + 1, end),
            _ => spec_dora_hais(s, i + 1, end),
        }
    }
}

/// The dora list of a round: the initial indicator, then every revealed
/// indicator in order.
pub fn get_dora_vec(dora_hyouji: Hai, actions: &Vec<Action>, start: usize, end: usize) -> (r:
    ConvResult<Vec<Tile>>)
    requires
        start <= end <= actions@.len(),
    ensures
        ({
            let hs = seq![dora_hyouji] + spec_dora_hais(actions@, start as int, end as int);
            &&& (r matches Ok(v) ==> spec_tiles_of(hs) == Some(v@))
            &&& (r is Err <==> spec_tiles_of(hs) is None)
        }),
{
    let ghost hs = seq![dora_hyouji] + spec_dora_hais(actions@, start as int, end as int);
    let mut hais: Vec<Hai> = Vec::new();
    hais.push(dora_hyouji);
    let mut i: usize = start;
    while i < end
        invariant
            start <= i <= end <= actions@.len(),
            hs == seq![dora_hyouji] + spec_dora_hais(actions@, start as int, end as int),
            hais@ + spec_dora_hais(actions@, i as int, end as int) == hs,
        decreases end - i,
    {
        match &actions[i] {
            Action::DORA(x) => {
                let ghost old_hais = hais@;
                hais.push(x.hai);
                proof {
                    assert(old_hais + (seq![x.hai] + spec_dora_hais(actions@, i + 1, end as int))
                        =~= hais@ + spec_dora_hais(actions@, i + 1, end as int));
                }
            }
            _ => {}
        }
        i = i + 1;
    }
    proof {
        assert(hais@ + Seq::<Hai>::empty() =~= hais@);
    }
    conv_tiles(&hais)
}

/// The winning records within a range of actions, in order.
pub open spec fn spec_agari_acts(s: Seq<Action>, i: int, end: int) -> Seq<ActionAGARI>
    decreases end - i,
    when 0 <= i <= end <= s.len()
{
    if i >= end {
        Seq::empty()
    } else {
        match s[i] {
            Action::AGARI(x) => seq![x] + spec_agari_acts(s, i + 1, end),
            _ => spec_agari_acts(s, i + 1, end),
        }
    }
}

/// The drawn-round records within a range of actions, in order.
pub open spec fn spec_ryu_acts(s: Seq<Action>, i: int, end: int) -> Seq<ActionRYUUKYOKU>
    decreases end - i,
    when 0 <= i <= end <= s.len()
{
    if i >= end {
        Seq::empty()
    } else {
        match s[i] {
            Action::RYUUKYOKU(x) => seq![x] + spec_ryu_acts(s, i + 1, end),
            _ => spec_ryu_acts(s, i + 1, end),
        }
    }
}

/// The hidden-bonus indicators of a round: the first winning record with
/// a non-empty converted list provides it; only the riichi declarer's
/// record carries one, and simultaneous winners carry the same list.
pub open spec fn spec_ura_scan(ags: Seq<ActionAGARI>) -> Option<Seq<Tile>>
    decreases ags.len(),
{
    if ags.len() == 0 {
        Some(Seq::empty())
    } else {
        match spec_tiles_of(ags[0].dora_hai_ura@) {
            None => None,
            Some(ts) => if ts.len() > 0 {
                Some(ts)
            } else {
                spec_ura_scan(ags.drop_first())
            },
        }
    }
}

/// The derived draw reason: an explicit tag wins; a plain draw is
/// classified by how many seats recorded a closing-hand snapshot.
pub open spec fn spec_ryu_reason(v: ActionRYUUKYOKU) -> ExtraRyuukyokuReason {
    let base = spec_conv_reason(v.reason);
    if base == ExtraRyuukyokuReason::Ryuukyoku {
        if v.hai0 is Some && v.hai1 is Some && v.hai2 is Some && v.hai3 is Some {
            ExtraRyuukyokuReason::TenpaiEverybody
        } else if v.hai0 is None && v.hai1 is None && v.hai2 is None && v.hai3 is None {
            ExtraRyuukyokuReason::TenpaiNobody
        } else {
            ExtraRyuukyokuReason::Ryuukyoku
        }
    } else {
        base
    }
}

/// How a converted draw outcome relates to its record: the score deltas
/// are scaled when any is non-zero, else omitted.
pub open spec fn spec_ryu_result_rel(v: ActionRYUUKYOKU, r: RoundResult) -> bool {
    &&& r matches RoundResult::Ryuukyoku { reason, delta_points } && reason == spec_ryu_reason(v)
        && delta_points@ == (if exists|k: int| 0 <= k < v.delta_points@.len()
        && #[trigger] v.delta_points@[k] != 0 {
        v.delta_points@.map_values(|x: i32| (100 * x as int) as i32)
    } else {
        Seq::<i32>::empty()
    })
}

/// The draw outcome of a drawn round.
pub fn conv_round_result_from_ryuukyoku(v: &ActionRYUUKYOKU) -> (r: ConvResult<RoundResult>)
    requires
        spec_points_ok(v.delta_points@),
    ensures
        r matches Ok(rr) && spec_ryu_result_rel(*v, rr),
{
    let base = conv_extra_ryuukyoku_reason(&v.reason);
    let reason = match base {
        ExtraRyuukyokuReason::Ryuukyoku => {
            match (v.hai0.is_some(), v.hai1.is_some(), v.hai2.is_some(), v.hai3.is_some()) {
                (true, true, true, true) => ExtraRyuukyokuReason::TenpaiEverybody,
                (false, false, false, false) => ExtraRyuukyokuReason::TenpaiNobody,
                _ => ExtraRyuukyokuReason::Ryuukyoku,
            }
        }
        x => x,
    };
    let mut any_nonzero = false;
    let mut i: usize = 0;
    while i < v.delta_points.len()
        invariant
            i <= v.delta_points@.len(),
            any_nonzero == exists|k: int|
                0 <= k < i && #[trigger] v.delta_points@[k] != 0,
        decreases v.delta_points@.len() - i,
    {
        if v.delta_points[i] != 0 {
            any_nonzero = true;
        }
        i = i + 1;
    }
    let delta_points = if any_nonzero {
        scale_points(&v.delta_points)
    } else {
        Vec::new()
    };
    proof {
        if !any_nonzero {
            assert(delta_points@ =~= Seq::<i32>::empty());
        }
    }
    Ok(RoundResult::Ryuukyoku { reason, delta_points })
}

/// Whether a round's terminal shape is convertible: exactly one drawn
/// outcome, or at least one winning record.
pub open spec fn spec_round_result_ok(s: Seq<Action>, start: int, end: int) -> bool {
    spec_ryu_acts(s, start, end).len() == 1 || spec_agari_acts(s, start, end).len() > 0
}

/// How a converted round outcome relates to its actions.
pub open spec fn spec_round_result_rel(
    s: Seq<Action>,
    start: int,
    end: int,
    oya: Player,
    r: RoundResult,
) -> bool {
    let rys = spec_ryu_acts(s, start, end);
    let ags = spec_agari_acts(s, start, end);
    if rys.len() == 1 {
        spec_ryu_result_rel(rys[0], r)
    } else {
        r matches RoundResult::Agari { agari_vec } && agari_vec@.len() == ags.len() && (forall|
            k: int,
        |
            0 <= k < ags.len() ==> spec_agari_rel(#[trigger] ags[k], oya, agari_vec@[k]))
    }
}

/// The outcome of one round: a single drawn outcome wins over winning
/// records, which cover simultaneous wins; any other shape is refused.
pub fn conv_round_result(actions: &Vec<Action>, start: usize, end: usize) -> (r: ConvResult<
    RoundResult,
>)
    requires
        start < end <= actions@.len(),
        actions@[start as int] matches Action::INIT(..),
        forall|k: int|
            start <= k < end ==> ((#[trigger] actions@[k]) matches Action::AGARI(x)
                ==> spec_agari_wf(x)),
        forall|k: int|
            start <= k < end ==> ((#[trigger] actions@[k]) matches Action::RYUUKYOKU(x)
                ==> spec_points_ok(x.delta_points@)),
    ensures
        ({
            let oya = actions@[start as int]->INIT_0.oya;
            &&& (r matches Ok(rr) ==> spec_round_result_rel(
                actions@,
                start as int,
                end as int,
                oya,
                rr,
            ))
            &&& (r is Ok <==> spec_round_result_ok(actions@, start as int, end as int))
            &&& (r is Err ==> r == Err::<RoundResult, ConvError>(ConvError::InvalidRoundFormat))
        }),
{
    let ghost oya = actions@[start as int]->INIT_0.oya;
    let ghost full_rys = spec_ryu_acts(actions@, start as int, end as int);
    let mut ryu_idx: usize = 0;
    let mut ryu_count: usize = 0;
    let ghost mut collected: Seq<ActionRYUUKYOKU> = Seq::empty();
    let mut i: usize = start;
    while i < end
        invariant
            start <= i <= end <= actions@.len(),
            full_rys == spec_ryu_acts(actions@, start as int, end as int),
            collected + spec_ryu_acts(actions@, i as int, end as int) == full_rys,
            ryu_count == collected.len(),
            ryu_count <= i - start,
            collected.len() >= 1 ==> start <= ryu_idx < end && (actions@[ryu_idx as int] matches
                Action::RYUUKYOKU(x) && x == collected[0]),
        decreases end - i,
    {
        match &actions[i] {
            Action::RYUUKYOKU(x) => {
                if ryu_count == 0 {
                    ryu_idx = i;
                }
                proof {
                    let ghost old_collected = collected;
                    collected = collected.push(*x);
                    assert(old_collected + (seq![*x] + spec_ryu_acts(actions@, i + 1, end as int))
                        =~= collected + spec_ryu_acts(actions@, i + 1, end as int));
                }
                ryu_count = ryu_count + 1;
            }
            _ => {}
        }
        i = i + 1;
    }
    proof {
        assert(collected + Seq::<ActionRYUUKYOKU>::empty() =~= collected);
        assert(collected == full_rys);
    }
    if ryu_count == 1 {
        match &actions[ryu_idx] {
            Action::RYUUKYOKU(x) => {
                proof {
                    assert(spec_points_ok(x.delta_points@));
                }
                let rr = conv_round_result_from_ryuukyoku(x)?;
                return Ok(rr);
            }
            _ => {
                proof {
                    assert(false);
                }
                return Err(ConvError::InvalidRoundFormat);
            }
        }
    }
    let ghost full_ags = spec_agari_acts(actions@, start as int, end as int);
    let mut agari_vec: Vec<Agari> = Vec::new();
    let ghost mut seen: Seq<ActionAGARI> = Seq::empty();
    let mut j: usize = start;
    while j < end
        invariant
            start <= j <= end <= actions@.len(),
            full_ags == spec_agari_acts(actions@, start as int, end as int),
            seen + spec_agari_acts(actions@, j as int, end as int) == full_ags,
            actions@[start as int] matches Action::INIT(..),
            oya == actions@[start as int]->INIT_0.oya,
            forall|k: int|
                start <= k < end ==> ((#[trigger] actions@[k]) matches Action::AGARI(x)
                    ==> spec_agari_wf(x)),
            agari_vec@.len() == seen.len(),
            forall|k: int|
                0 <= k < seen.len() ==> spec_agari_rel(#[trigger] seen[k], oya, agari_vec@[k]),
        decreases end - j,
    {
        match &actions[j] {
            Action::AGARI(x) => {
                let a = conv_agari(x, Player(match &actions[start] {
                    Action::INIT(ini) => ini.oya.0,
                    _ => 0,
                }))?;
                let ghost old_av = agari_vec@;
                agari_vec.push(a);
                proof {
                    let ghost old_seen = seen;
                    seen = seen.push(*x);
                    assert(old_seen + (seq![*x] + spec_agari_acts(actions@, j + 1, end as int))
                        =~= seen + spec_agari_acts(actions@, j + 1, end as int));
                    assert(spec_agari_rel(*x, oya, a));
                    assert forall|k: int|
                        0 <= k < seen.len() implies spec_agari_rel(
                        #[trigger] seen[k],
                        oya,
                        agari_vec@[k],
                    ) by {
                        if k < seen.len() - 1 {
                            assert(seen[k] == old_seen[k]);
                            assert(agari_vec@[k] == old_av[k]);
                        } else {
                            assert(seen[k] == *x);
                            assert(agari_vec@[k] == a);
                        }
                    }
                }
            }
            _ => {}
        }
        j = j + 1;
    }
    proof {
        assert(seen + Seq::<ActionAGARI>::empty() =~= seen);
        assert(seen == full_ags);
    }
    if agari_vec.len() > 0 {
        Ok(RoundResult::Agari { agari_vec })
    } else {
        Err(ConvError::InvalidRoundFormat)
    }
}

/// Whether the settings of a round can be read off: a terminal action
/// exists and every indicator tile converts.
pub open spec fn spec_round_setting_ok(s: Seq<Action>, start: int, end: int) -> bool {
    &&& spec_agari_acts(s, start, end).len() + spec_ryu_acts(s, start, end).len() > 0
    &&& spec_tiles_of(seq![s[start]->INIT_0.seed.dora_hyouji] + spec_dora_hais(s, start, end))
        is Some
    &&& spec_ura_scan(spec_agari_acts(s, start, end)) is Some
}

/// How converted round settings relate to their actions.
pub open spec fn spec_round_setting_rel(
    s: Seq<Action>,
    start: int,
    end: int,
    rs: RoundSettings,
) -> bool {
    let init = s[start]->INIT_0;
    &&& rs.kyoku == init.seed.kyoku
    &&& rs.honba == init.seed.honba
    &&& rs.kyoutaku == init.seed.kyoutaku
    &&& rs.points@ == init.ten@.map_values(|x: i32| (100 * x as int) as i32)
    &&& Some(rs.dora@) == spec_tiles_of(
        seq![init.seed.dora_hyouji] + spec_dora_hais(s, start, end),
    )
    &&& Some(rs.ura_dora@) == spec_ura_scan(spec_agari_acts(s, start, end))
}

/// The settings of one round: counters and scaled scores from the
/// round-init, the dora list, and the hidden-bonus list of its winners.
pub fn conv_round_setting(actions: &Vec<Action>, start: usize, end: usize) -> (r: ConvResult<
    RoundSettings,
>)
    requires
        start < end <= actions@.len(),
        actions@[start as int] matches Action::INIT(..),
        spec_points_ok(actions@[start as int]->INIT_0.ten@),
    ensures
        (r matches Ok(rs) ==> spec_round_setting_rel(actions@, start as int, end as int, rs)),
        (r is Ok <==> spec_round_setting_ok(actions@, start as int, end as int)),
        (spec_agari_acts(actions@, start as int, end as int).len() + spec_ryu_acts(
            actions@,
            start as int,
            end as int,
        ).len() == 0 ==> r == Err::<RoundSettings, ConvError>(ConvError::NotFoundTerminalAction)),
{
    let ghost s = actions@;
    let init = match &actions[start] {
        Action::INIT(x) => x,
        _ => {
            proof {
                assert(false);
            }
            return Err(ConvError::InvalidRoundFormat);
        }
    };

    // a terminal action must exist
    let mut n_terminal: usize = 0;
    let mut i: usize = start;
    while i < end
        invariant
            start <= i <= end <= s.len(),
            s == actions@,
            n_terminal <= i - start,
            n_terminal == spec_agari_acts(s, start as int, i as int).len() + spec_ryu_acts(
                s,
                start as int,
                i as int,
            ).len(),
        decreases end - i,
    {
        proof {
            lemma_acts_snoc(s, start as int, i as int);
        }
        match &actions[i] {
            Action::AGARI(_) => {
                n_terminal = n_terminal + 1;
            }
            Action::RYUUKYOKU(_) => {
                n_terminal = n_terminal + 1;
            }
            _ => {}
        }
        i = i + 1;
    }
    if n_terminal == 0 {
        return Err(ConvError::NotFoundTerminalAction);
    }

    let points = scale_points(&init.ten);
    let dora = get_dora_vec(init.seed.dora_hyouji, actions, start, end)?;

    // the hidden-bonus list: the first winner whose converted list is
    // non-empty provides it
    let ghost full_ags = spec_agari_acts(s, start as int, end as int);
    let mut ura_dora: Vec<Tile> = Vec::new();
    let mut found: bool = false;
    let mut j: usize = start;
    while j < end
        invariant
            start <= j <= end <= s.len(),
            s == actions@,
            full_ags == spec_agari_acts(s, start as int, end as int),
            !found ==> spec_ura_scan(spec_agari_acts(s, j as int, end as int)) == spec_ura_scan(
                full_ags,
            ) && ura_dora@.len() == 0,
            found ==> Some(ura_dora@) == spec_ura_scan(full_ags),
        decreases end - j,
    {
        if !found {
            match &actions[j] {
                Action::AGARI(x) => {
                    proof {
                        assert(spec_agari_acts(s, j as int, end as int) == seq![*x]
                            + spec_agari_acts(s, j + 1, end as int));
                    }
                    match conv_tiles(&x.dora_hai_ura) {
                        Ok(ts) => {
                            if ts.len() > 0 {
                                ura_dora = ts;
                                found = true;
                            } else {
                                proof {
                                    assert(spec_agari_acts(s, j as int, end as int).drop_first()
                                        =~= spec_agari_acts(s, j + 1, end as int));
                                }
                            }
                        }
                        Err(er) => {
                            return Err(er);
                        }
                    }
                }
                _ => {}
            }
        }
        j = j + 1;
    }
    proof {
        if !found {
            assert(spec_agari_acts(s, end as int, end as int) =~= Seq::<ActionAGARI>::empty());
            assert(Some(ura_dora@) =~= spec_ura_scan(full_ags));
        }
    }

    Ok(
        RoundSettings {
            kyoku: init.seed.kyoku,
            honba: init.seed.honba,
            kyoutaku: init.seed.kyoutaku,
            points,
            dora,
            ura_dora,
        },
    )
}

/// Counting terminal actions one position further.
proof fn lemma_acts_snoc(s: Seq<Action>, start: int, i: int)
    requires
        0 <= start <= i < s.len(),
    ensures
        spec_agari_acts(s, start, i + 1).len() == spec_agari_acts(s, start, i).len() + (
        if s[i] matches Action::AGARI(..) {
            1int
        } else {
            0int
        }),
        spec_ryu_acts(s, start, i + 1).len() == spec_ryu_acts(s, start, i).len() + (
        if s[i] matches Action::RYUUKYOKU(..) {
            1int
        } else {
            0int
        }),
    decreases i - start,
{
    if start < i {
        lemma_acts_snoc(s, start + 1, i);
    } else {
        assert(spec_agari_acts(s, i + 1, i + 1) =~= Seq::<ActionAGARI>::empty());
        assert(spec_ryu_acts(s, i + 1, i + 1) =~= Seq::<ActionRYUUKYOKU>::empty());
        assert(spec_agari_acts(s, i, i) =~= Seq::<ActionAGARI>::empty());
        assert(spec_ryu_acts(s, i, i) =~= Seq::<ActionRYUUKYOKU>::empty());
    }
}

/// The display slot that a call direction owns: left, across, right.
pub open spec fn spec_dirslot3(d: Direction) -> int {
    match d {
        Direction::Kamicha => 0,
        Direction::Toimen => 1,
        Direction::Shimocha => 2,
        Direction::SelfSeat => 2,
    }
}

/// The display order of three same-rank fives: the single red copy among
/// the four is placed by where it came from. When the unused copy is the
/// red one, a synthesized red stands at the caller's direction slot; when
/// the called copy is red, it stands there itself; otherwise the red is
/// one of the two own copies, at a fixed slot by direction.
pub open spec fn spec_place_five_triple(d: Direction, called_t: Tile, other_t: Tile) -> (
    Tile,
    Tile,
    Tile,
) {
    let black = spec_to_black(called_t);
    let red = spec_to_red(black);
    if other_t.0 == 51 || other_t.0 == 52 || other_t.0 == 53 {
        if spec_dirslot3(d) == 0 {
            (red, black, black)
        } else if spec_dirslot3(d) == 1 {
            (black, red, black)
        } else {
            (black, black, red)
        }
    } else if called_t.0 == 51 || called_t.0 == 52 || called_t.0 == 53 {
        if spec_dirslot3(d) == 0 {
            (called_t, black, black)
        } else if spec_dirslot3(d) == 1 {
            (black, called_t, black)
        } else {
            (black, black, called_t)
        }
    } else {
        match d {
            Direction::Shimocha => (black, red, black),
            _ => (black, black, red),
        }
    }
}

fn place_five_triple(d: Direction, called_t: Tile, other_t: Tile) -> (r: (Tile, Tile, Tile))
    ensures
        r == spec_place_five_triple(d, called_t, other_t),
{
    let black = called_t.to_black();
    let red = black.to_red();
    let slot: u8 = match d {
        Direction::Kamicha => 0,
        Direction::Toimen => 1,
        _ => 2,
    };
    if other_t.is_red() {
        if slot == 0 {
            (red, black, black)
        } else if slot == 1 {
            (black, red, black)
        } else {
            (black, black, red)
        }
    } else if called_t.is_red() {
        if slot == 0 {
            (called_t, black, black)
        } else if slot == 1 {
            (black, called_t, black)
        } else {
            (black, black, called_t)
        }
    } else {
        match d {
            Direction::Shimocha => (black, red, black),
            _ => (black, black, red),
        }
    }
}

/// The display order of four same-rank fives of an open quad: the called
/// copy keeps its direction slot when red, with the right seat owning the
/// last slot; otherwise the synthesized red sits next to it.
pub open spec fn spec_place_five_quad(d: Direction, called_t: Tile) -> (Tile, Tile, Tile, Tile) {
    let black = spec_to_black(called_t);
    let red = spec_to_red(black);
    if called_t.0 == 51 || called_t.0 == 52 || called_t.0 == 53 {
        match d {
            Direction::Kamicha => (called_t, black, black, black),
            Direction::Toimen => (black, called_t, black, black),
            _ => (black, black, black, called_t),
        }
    } else {
        match d {
            Direction::Shimocha => (black, black, red, black),
            _ => (black, black, black, red),
        }
    }
}

fn place_five_quad(d: Direction, called_t: Tile) -> (r: (Tile, Tile, Tile, Tile))
    ensures
        r == spec_place_five_quad(d, called_t),
{
    let black = called_t.to_black();
    let red = black.to_red();
    if called_t.is_red() {
        match d {
            Direction::Kamicha => (called_t, black, black, black),
            Direction::Toimen => (black, called_t, black, black),
            _ => (black, black, black, called_t),
        }
    } else {
        match d {
            Direction::Shimocha => (black, black, red, black),
            _ => (black, black, black, red),
        }
    }
}

/// The stream entries of one call: what it adds to the incoming and the
/// outgoing stream. An open quad adds a filler placeholder to the
/// outgoing stream to keep the two streams index-aligned.
#[verifier::opaque]
pub open spec fn spec_meld_entries(m: Meld) -> Option<(Seq<IncomingTile>, Seq<OutgoingTile>)> {
    match m {
        Meld::Chii { combination, called_position } => {
            let (c0, c1, c2) = combination;
            let ord = if called_position == 1 {
                (c1, c0, c2)
            } else if called_position == 2 {
                (c2, c0, c1)
            } else {
                (c0, c1, c2)
            };
            match (spec_hai_to_tile(ord.0, true), spec_hai_to_tile(ord.1, true), spec_hai_to_tile(
                ord.2,
                true,
            )) {
                (Some(t0), Some(t1), Some(t2)) => Some(
                    (seq![IncomingTile::Chii { combination: (t0, t1, t2) }], Seq::empty()),
                ),
                _ => None,
            }
        }
        Meld::Pon { dir, combination, called, unused } => {
            let d = spec_conv_dir(dir);
            if crate::mjlog::model::spec_is_number5(called) {
                match (spec_hai_to_tile(called, true), spec_hai_to_tile(unused, true)) {
                    (Some(ct), Some(ut)) => Some(
                        (
                            seq![
                                IncomingTile::Pon {
                                    combination: spec_place_five_triple(d, ct, ut),
                                    dir: d,
                                },
                            ],
                            Seq::empty(),
                        ),
                    ),
                    _ => None,
                }
            } else {
                match spec_hai_to_tile(called, true) {
                    Some(t) => Some(
                        (
                            seq![IncomingTile::Pon { combination: (t, t, t), dir: d }],
                            Seq::empty(),
                        ),
                    ),
                    None => None,
                }
            }
        }
        Meld::Kakan { dir, combination, called, added } => {
            let d = spec_conv_dir(dir);
            if crate::mjlog::model::spec_is_number5(called) {
                match (spec_hai_to_tile(called, true), spec_hai_to_tile(added, true)) {
                    (Some(ct), Some(at)) => Some(
                        (
                            Seq::empty(),
                            seq![
                                OutgoingTile::Kakan {
                                    combination: spec_place_five_triple(d, ct, at),
                                    dir: d,
                                    added: at,
                                },
                            ],
                        ),
                    ),
                    _ => None,
                }
            } else {
                match spec_hai_to_tile(called, true) {
                    Some(t) => Some(
                        (
                            Seq::empty(),
                            seq![
                                OutgoingTile::Kakan { combination: (t, t, t), dir: d, added: t },
                            ],
                        ),
                    ),
                    None => None,
                }
            }
        }
        Meld::Daiminkan { dir, hai } => {
            let d = spec_conv_dir(dir);
            if crate::mjlog::model::spec_is_number5(hai) {
                match spec_hai_to_tile(hai, true) {
                    Some(ct) => Some(
                        (
                            seq![
                                IncomingTile::Daiminkan {
                                    combination: spec_place_five_quad(d, ct),
                                    dir: d,
                                },
                            ],
                            seq![OutgoingTile::Dummy],
                        ),
                    ),
                    None => None,
                }
            } else {
                match spec_hai_to_tile(hai, true) {
                    Some(t) => Some(
                        (
                            seq![
                                IncomingTile::Daiminkan { combination: (t, t, t, t), dir: d },
                            ],
                            seq![OutgoingTile::Dummy],
                        ),
                    ),
                    None => None,
                }
            }
        }
        Meld::Ankan { hai } => {
            match spec_hai_to_tile(hai, true) {
                Some(t) => Some((Seq::empty(), seq![OutgoingTile::Ankan(spec_to_red(t))])),
                None => None,
            }
        }
    }
}


/// The entries of one call pair its open-quad with its placeholder.
proof fn lemma_meld_entries_counts(m: Meld)
    ensures
        spec_meld_entries(m) matches Some(me) ==> spec_count_daiminkan(me.0) == spec_count_dummy(
            me.1,
        ),
{
    reveal(spec_meld_entries);
    let e = spec_meld_entries(m);
    if e is Some {
        let me = e->Some_0;
        assert(spec_count_daiminkan(me.0) == spec_count_dummy(me.1)) by {
            if me.0.len() > 0 {
                assert(me.0.drop_first() =~= Seq::<IncomingTile>::empty());
                assert(spec_count_daiminkan(Seq::<IncomingTile>::empty()) == 0);
            }
            if me.1.len() > 0 {
                assert(me.1.drop_first() =~= Seq::<OutgoingTile>::empty());
                assert(spec_count_dummy(Seq::<OutgoingTile>::empty()) == 0);
            }
        }
    }
}

/// Applies one call's entries to the two streams.
fn apply_meld(m: &Meld, inc: &mut Vec<IncomingTile>, out: &mut Vec<OutgoingTile>) -> (r:
    ConvResult<()>)
    ensures
        (r is Ok <==> spec_meld_entries(*m) is Some),
        (r is Ok ==> final(inc)@ == old(inc)@ + spec_meld_entries(*m)->Some_0.0),
        (r is Ok ==> final(out)@ == old(out)@ + spec_meld_entries(*m)->Some_0.1),
        (r is Err ==> r == Err::<(), ConvError>(ConvError::InvalidTileFormat)),
        (r is Err ==> final(inc)@ == old(inc)@ && final(out)@ == old(out)@),
{
    proof {
        reveal(spec_meld_entries);
    }
    match m {
        Meld::Chii { combination, called_position } => {
            let (c0, c1, c2) = *combination;
            let ord = if *called_position == 1 {
                (c1, c0, c2)
            } else if *called_position == 2 {
                (c2, c0, c1)
            } else {
                (c0, c1, c2)
            };
            let t0 = conv_hai_to_tile(ord.0, true)?;
            let t1 = conv_hai_to_tile(ord.1, true)?;
            let t2 = conv_hai_to_tile(ord.2, true)?;
            inc.push(IncomingTile::Chii { combination: (t0, t1, t2) });
            proof {
                assert(final(inc)@ =~= old(inc)@ + spec_meld_entries(*m)->Some_0.0);
                assert(final(out)@ =~= old(out)@ + spec_meld_entries(*m)->Some_0.1);
            }
            Ok(())
        }
        Meld::Pon { dir, combination, called, unused } => {
            let d = conv_dir(*dir);
            if called.is_number5() {
                let ct = conv_hai_to_tile(*called, true)?;
                let ut = conv_hai_to_tile(*unused, true)?;
                let comb = place_five_triple(d, ct, ut);
                inc.push(IncomingTile::Pon { combination: comb, dir: d });
            } else {
                let t = conv_hai_to_tile(*called, true)?;
                inc.push(IncomingTile::Pon { combination: (t, t, t), dir: d });
            }
            proof {
                assert(final(inc)@ =~= old(inc)@ + spec_meld_entries(*m)->Some_0.0);
                assert(final(out)@ =~= old(out)@ + spec_meld_entries(*m)->Some_0.1);
            }
            Ok(())
        }
        Meld::Kakan { dir, combination, called, added } => {
            let d = conv_dir(*dir);
            if called.is_number5() {
                let ct = conv_hai_to_tile(*called, true)?;
                let at = conv_hai_to_tile(*added, true)?;
                let comb = place_five_triple(d, ct, at);
                out.push(OutgoingTile::Kakan { combination: comb, dir: d, added: at });
            } else {
                let t = conv_hai_to_tile(*called, true)?;
                out.push(OutgoingTile::Kakan { combination: (t, t, t), dir: d, added: t });
            }
            proof {
                assert(final(inc)@ =~= old(inc)@ + spec_meld_entries(*m)->Some_0.0);
                assert(final(out)@ =~= old(out)@ + spec_meld_entries(*m)->Some_0.1);
            }
            Ok(())
        }
        Meld::Daiminkan { dir, hai } => {
            let d = conv_dir(*dir);
            if hai.is_number5() {
                let ct = conv_hai_to_tile(*hai, true)?;
                let comb = place_five_quad(d, ct);
                inc.push(IncomingTile::Daiminkan { combination: comb, dir: d });
            } else {
                let t = conv_hai_to_tile(*hai, true)?;
                inc.push(IncomingTile::Daiminkan { combination: (t, t, t, t), dir: d });
            }
            out.push(OutgoingTile::Dummy);
            proof {
                assert(final(inc)@ =~= old(inc)@ + spec_meld_entries(*m)->Some_0.0);
                assert(final(out)@ =~= old(out)@ + spec_meld_entries(*m)->Some_0.1);
            }
            Ok(())
        }
        Meld::Ankan { hai } => {
            let t = conv_hai_to_tile(*hai, true)?;
            out.push(OutgoingTile::Ankan(t.to_red()));
            proof {
                assert(final(inc)@ =~= old(inc)@ + spec_meld_entries(*m)->Some_0.0);
                assert(final(out)@ =~= old(out)@ + spec_meld_entries(*m)->Some_0.1);
            }
            Ok(())
        }
    }
}

/// The per-seat fold over a round's actions: draws feed the incoming
/// stream, discards the outgoing one (marked when they discard the drawn
/// tile, or resolve a riichi declaration), and calls contribute their
/// entries; actions of other seats and of other kinds pass by.
pub open spec fn spec_replay(
    s: Seq<Action>,
    who: Player,
    i: int,
    end: int,
    last_draw: Option<Hai>,
    reach: bool,
) -> Option<(Seq<IncomingTile>, Seq<OutgoingTile>)>
    decreases end - i,
    when 0 <= i <= end <= s.len()
{
    if i >= end {
        Some((Seq::empty(), Seq::empty()))
    } else {
        match s[i] {
            Action::DRAW(x) => if x.who == who {
                match spec_hai_to_tile(x.hai, true) {
                    None => None,
                    Some(t) => match spec_replay(s, who, i + 1, end, Some(x.hai), reach) {
                        None => None,
                        Some(p) => Some((seq![IncomingTile::Tsumo(t)] + p.0, p.1)),
                    },
                }
            } else {
                spec_replay(s, who, i + 1, end, last_draw, reach)
            },
            Action::DISCARD(x) => if x.who == who {
                let entry_opt = if last_draw == Some(x.hai) {
                    Some(
                        if reach {
                            OutgoingTile::TsumogiriRiichi
                        } else {
                            OutgoingTile::Tsumogiri
                        },
                    )
                } else {
                    match spec_hai_to_tile(x.hai, true) {
                        None => None,
                        Some(t) => Some(
                            if reach {
                                OutgoingTile::Riichi(t)
                            } else {
                                OutgoingTile::Discard(t)
                            },
                        ),
                    }
                };
                match entry_opt {
                    None => None,
                    Some(en) => match spec_replay(s, who, i + 1, end, None, false) {
                        None => None,
                        Some(p) => Some((p.0, seq![en] + p.1)),
                    },
                }
            } else {
                spec_replay(s, who, i + 1, end, last_draw, reach)
            },
            Action::REACH1(x) => if x.who == who {
                spec_replay(s, who, i + 1, end, last_draw, true)
            } else {
                spec_replay(s, who, i + 1, end, last_draw, reach)
            },
            Action::N(x) => if x.who == who {
                match spec_meld_entries(x.m) {
                    None => None,
                    Some(me) => match spec_replay(s, who, i + 1, end, last_draw, reach) {
                        None => None,
                        Some(p) => Some((me.0 + p.0, me.1 + p.1)),
                    },
                }
            } else {
                spec_replay(s, who, i + 1, end, last_draw, reach)
            },
            _ => spec_replay(s, who, i + 1, end, last_draw, reach),
        }
    }
}

/// The outgoing stream without its trailing filler placeholders.
pub open spec fn spec_trim_dummies(out: Seq<OutgoingTile>) -> Seq<OutgoingTile>
    decreases out.len(),
{
    if out.len() > 0 && (out.last() matches OutgoingTile::Dummy) {
        spec_trim_dummies(out.drop_last())
    } else {
        out
    }
}

/// A trimmed outgoing stream never ends in a filler placeholder.
pub proof fn lemma_trim_no_trailing(out: Seq<OutgoingTile>)
    ensures
        spec_trim_dummies(out).len() == 0 || !(spec_trim_dummies(out).last()
            matches OutgoingTile::Dummy),
    decreases out.len(),
{
    if out.len() > 0 && (out.last() matches OutgoingTile::Dummy) {
        lemma_trim_no_trailing(out.drop_last());
    }
}

/// The open quads of an incoming stream.
pub open spec fn spec_count_daiminkan(inc: Seq<IncomingTile>) -> int
    decreases inc.len(),
{
    if inc.len() == 0 {
        0
    } else {
        (if (inc[0] matches IncomingTile::Daiminkan { .. }) {
            1int
        } else {
            0int
        }) + spec_count_daiminkan(inc.drop_first())
    }
}

/// The filler placeholders of an outgoing stream.
pub open spec fn spec_count_dummy(out: Seq<OutgoingTile>) -> int
    decreases out.len(),
{
    if out.len() == 0 {
        0
    } else {
        (if (out[0] matches OutgoingTile::Dummy) {
            1int
        } else {
            0int
        }) + spec_count_dummy(out.drop_first())
    }
}

proof fn lemma_count_daiminkan_add(a: Seq<IncomingTile>, b: Seq<IncomingTile>)
    ensures
        spec_count_daiminkan(a + b) == spec_count_daiminkan(a) + spec_count_daiminkan(b),
    decreases a.len(),
{
    if a.len() == 0 {
        assert(a + b =~= b);
    } else {
        lemma_count_daiminkan_add(a.drop_first(), b);
        assert((a + b).drop_first() =~= a.drop_first() + b);
        assert((a + b)[0] == a[0]);
    }
}

proof fn lemma_count_dummy_add(a: Seq<OutgoingTile>, b: Seq<OutgoingTile>)
    ensures
        spec_count_dummy(a + b) == spec_count_dummy(a) + spec_count_dummy(b),
    decreases a.len(),
{
    if a.len() == 0 {
        assert(a + b =~= b);
    } else {
        lemma_count_dummy_add(a.drop_first(), b);
        assert((a + b).drop_first() =~= a.drop_first() + b);
        assert((a + b)[0] == a[0]);
    }
}

/// Every open quad in the incoming stream has a matching filler
/// placeholder in the untrimmed outgoing stream: the fold appends the
/// two in the same step, so their counts agree.
pub proof fn lemma_replay_dummy_pairing(
    s: Seq<Action>,
    who: Player,
    i: int,
    end: int,
    last_draw: Option<Hai>,
    reach: bool,
)
    requires
        0 <= i <= end <= s.len(),
    ensures
        spec_replay(s, who, i, end, last_draw, reach) matches Some(p) ==> spec_count_daiminkan(p.0)
            == spec_count_dummy(p.1),
    decreases end - i,
{
    if i < end {
        assert forall|ld2: Option<Hai>, rc2: bool|
            (#[trigger] spec_replay(s, who, i + 1, end, ld2, rc2)) is Some implies ({
            let p = spec_replay(s, who, i + 1, end, ld2, rc2)->Some_0;
            spec_count_daiminkan(p.0) == spec_count_dummy(p.1)
        }) by {
            lemma_replay_dummy_pairing(s, who, i + 1, end, ld2, rc2);
        }
        lemma_pairing_step(s, who, i, end, last_draw, reach);
    }
}

#[verifier::rlimit(100)]
#[verifier::spinoff_prover]
proof fn lemma_pairing_step(
    s: Seq<Action>,
    who: Player,
    i: int,
    end: int,
    last_draw: Option<Hai>,
    reach: bool,
)
    requires
        0 <= i < end <= s.len(),
        forall|ld2: Option<Hai>, rc2: bool|
            ((#[trigger] spec_replay(s, who, i + 1, end, ld2, rc2)) is Some ==> ({
                let p = spec_replay(s, who, i + 1, end, ld2, rc2)->Some_0;
                spec_count_daiminkan(p.0) == spec_count_dummy(p.1)
            })),
    ensures
        spec_replay(s, who, i, end, last_draw, reach) matches Some(p) ==> spec_count_daiminkan(p.0)
            == spec_count_dummy(p.1),
{
    let r = spec_replay(s, who, i, end, last_draw, reach);
    if r is Some {
        match s[i] {
            Action::DRAW(x) => {
                if x.who == who {
                    let p = spec_replay(s, who, i + 1, end, Some(x.hai), reach)->Some_0;
                    let t = spec_hai_to_tile(x.hai, true)->Some_0;
                    assert(spec_replay(s, who, i + 1, end, Some(x.hai), reach) is Some);
                    assert(spec_count_daiminkan(p.0) == spec_count_dummy(p.1));
                    assert(r == Some((seq![IncomingTile::Tsumo(t)] + p.0, p.1)));
                    lemma_count_daiminkan_add(seq![IncomingTile::Tsumo(t)], p.0);
                    assert(seq![IncomingTile::Tsumo(t)].drop_first()
                        =~= Seq::<IncomingTile>::empty());
                    assert(spec_count_daiminkan(Seq::<IncomingTile>::empty()) == 0);
                    assert(spec_count_daiminkan(seq![IncomingTile::Tsumo(t)]) == 0);
                    assert(spec_count_daiminkan(r->Some_0.0) == spec_count_dummy(r->Some_0.1));
                } else {
                    assert(spec_count_daiminkan(r->Some_0.0) == spec_count_dummy(r->Some_0.1));
                }
            }
            Action::DISCARD(x) => {
                if x.who == who {
                    let p = spec_replay(s, who, i + 1, end, None, false)->Some_0;
                    let en = r->Some_0.1[0];
                    assert(r->Some_0.1 == seq![en] + p.1);
                    lemma_count_dummy_add(seq![en], p.1);
                    assert(seq![en].drop_first() =~= Seq::<OutgoingTile>::empty());
                    assert(!(en matches OutgoingTile::Dummy));
                    assert(spec_count_dummy(Seq::<OutgoingTile>::empty()) == 0);
                    assert(spec_count_dummy(seq![en]) == 0);
                    assert(spec_count_daiminkan(r->Some_0.0) == spec_count_dummy(r->Some_0.1));
                } else {
                    assert(spec_count_daiminkan(r->Some_0.0) == spec_count_dummy(r->Some_0.1));
                }
            }
            Action::REACH1(x) => {
                if x.who == who {
                    assert(r == spec_replay(s, who, i + 1, end, last_draw, true));
                } else {
                    assert(r == spec_replay(s, who, i + 1, end, last_draw, reach));
                }
                assert(spec_count_daiminkan(r->Some_0.0) == spec_count_dummy(r->Some_0.1));
            }
            Action::N(x) => {
                if x.who == who {
                    let me = spec_meld_entries(x.m)->Some_0;
                    let p = spec_replay(s, who, i + 1, end, last_draw, reach)->Some_0;
                    lemma_count_daiminkan_add(me.0, p.0);
                    lemma_count_dummy_add(me.1, p.1);
                    lemma_meld_entries_counts(x.m);
                    assert(spec_count_daiminkan(r->Some_0.0) == spec_count_dummy(r->Some_0.1));
                } else {
                    assert(spec_count_daiminkan(r->Some_0.0) == spec_count_dummy(r->Some_0.1));
                }
            }
            _ => {
                assert(spec_count_daiminkan(r->Some_0.0) == spec_count_dummy(r->Some_0.1));
            }
        }
    }
}

/// Reconstructs one seat's incoming and outgoing streams from a round's
/// actions; the trailing filler placeholders are stripped once the fold
/// completes, so the outgoing stream never ends in one.
#[verifier::rlimit(100)]
pub fn replay_actions(actions: &Vec<Action>, who: Player, start: usize, end: usize) -> (r:
    ConvResult<(Vec<IncomingTile>, Vec<OutgoingTile>)>)
    requires
        start <= end <= actions@.len(),
    ensures
        (r matches Ok(p) ==> spec_replay(actions@, who, start as int, end as int, None, false)
            matches Some(q) && p.0@ == q.0 && p.1@ == spec_trim_dummies(q.1)),
        (r is Err <==> spec_replay(actions@, who, start as int, end as int, None, false) is None),
        (r matches Ok(p) ==> p.1@.len() == 0 || !(p.1@.last() matches OutgoingTile::Dummy)),
{
    let ghost s = actions@;
    let mut inc: Vec<IncomingTile> = Vec::new();
    let mut out: Vec<OutgoingTile> = Vec::new();
    let mut last_draw: Option<Hai> = None;
    let mut reach: bool = false;
    let ghost mut g_last: Option<Hai> = None;
    let ghost mut g_reach: bool = false;
    let mut i: usize = start;
    while i < end
        invariant
            start <= i <= end <= s.len(),
            s == actions@,
            g_last == last_draw,
            g_reach == reach,
            (spec_replay(s, who, i as int, end as int, g_last, g_reach) matches Some(p)
                ==> spec_replay(s, who, start as int, end as int, None, false) == Some(
                (inc@ + p.0, out@ + p.1),
            )),
            (spec_replay(s, who, i as int, end as int, g_last, g_reach) is None ==> spec_replay(
                s,
                who,
                start as int,
                end as int,
                None,
                false,
            ) is None),
        decreases end - i,
    {
        match &actions[i] {
            Action::DRAW(x) => {
                if x.who.0 == who.0 {
                    proof {
                        assert(x.who == who);
                    }
                    match conv_hai_to_tile(x.hai, true) {
                        Ok(t) => {
                            let ghost old_inc = inc@;
                            inc.push(IncomingTile::Tsumo(t));
                            last_draw = Some(x.hai);
                            proof {
                                g_last = Some(x.hai);
                                let cg = spec_replay(s, who, i + 1, end as int, g_last, g_reach);
                                if cg is Some {
                                    let p = cg->Some_0;
                                    assert(old_inc + (seq![IncomingTile::Tsumo(t)] + p.0) =~= inc@
                                        + p.0);
                                }
                            }
                        }
                        Err(er) => {
                            return Err(er);
                        }
                    }
                } else {
                    proof {
                        assert(x.who != who);
                    }
                }
            }
            Action::DISCARD(x) => {
                if x.who.0 == who.0 {
                    proof {
                        assert(x.who == who);
                    }
                    let is_tsumogiri = match &last_draw {
                        Some(h) => h.0 == x.hai.0,
                        None => false,
                    };
                    proof {
                        assert(is_tsumogiri == (g_last == Some(x.hai)));
                    }
                    let en = if is_tsumogiri {
                        if reach {
                            OutgoingTile::TsumogiriRiichi
                        } else {
                            OutgoingTile::Tsumogiri
                        }
                    } else {
                        let t = match conv_hai_to_tile(x.hai, true) {
                            Ok(t) => t,
                            Err(er) => {
                                return Err(er);
                            }
                        };
                        if reach {
                            OutgoingTile::Riichi(t)
                        } else {
                            OutgoingTile::Discard(t)
                        }
                    };
                    let ghost old_out = out@;
                    out.push(en);
                    last_draw = None;
                    reach = false;
                    proof {
                        g_last = None;
                        g_reach = false;
                        let cg = spec_replay(s, who, i + 1, end as int, g_last, g_reach);
                        if cg is Some {
                            let p = cg->Some_0;
                            assert(old_out + (seq![en] + p.1) =~= out@ + p.1);
                        }
                    }
                } else {
                    proof {
                        assert(x.who != who);
                    }
                }
            }
            Action::REACH1(x) => {
                if x.who.0 == who.0 {
                    proof {
                        assert(x.who == who);
                    }
                    reach = true;
                    proof {
                        g_reach = true;
                    }
                } else {
                    proof {
                        assert(x.who != who);
                    }
                }
            }
            Action::N(x) => {
                if x.who.0 == who.0 {
                    proof {
                        assert(x.who == who);
                    }
                    let ghost old_inc = inc@;
                    let ghost old_out = out@;
                    match apply_meld(&x.m, &mut inc, &mut out) {
                        Ok(_) => {
                            proof {
                                let me = spec_meld_entries(x.m)->Some_0;
                                let cg = spec_replay(s, who, i + 1, end as int, g_last, g_reach);
                                if cg is Some {
                                    let p = cg->Some_0;
                                    assert(old_inc + (me.0 + p.0) =~= inc@ + p.0);
                                    assert(old_out + (me.1 + p.1) =~= out@ + p.1);
                                }
                            }
                        }
                        Err(er) => {
                            return Err(er);
                        }
                    }
                } else {
                    proof {
                        assert(x.who != who);
                    }
                }
            }
            _ => {}
        }
        i = i + 1;
    }
    proof {
        assert(spec_replay(s, who, end as int, end as int, g_last, g_reach) == Some(
            (Seq::<IncomingTile>::empty(), Seq::<OutgoingTile>::empty()),
        ));
        assert(inc@ + Seq::<IncomingTile>::empty() =~= inc@);
        assert(out@ + Seq::<OutgoingTile>::empty() =~= out@);
    }
    let ghost untrimmed = out@;
    loop
        invariant_except_break
            spec_trim_dummies(untrimmed) == spec_trim_dummies(out@),
        ensures
            out@ == spec_trim_dummies(untrimmed),
        decreases out@.len(),
    {
        let n = out.len();
        if n == 0 {
            proof {
                assert(spec_trim_dummies(out@) == out@);
            }
            break;
        }
        let is_dummy = match &out[n - 1] {
            OutgoingTile::Dummy => true,
            _ => false,
        };
        if !is_dummy {
            proof {
                assert(out@.last() == out@[n - 1]);
                assert(spec_trim_dummies(out@) == out@);
            }
            break;
        }
        let ghost before = out@;
        out.pop();
        proof {
            assert(out@ =~= before.drop_last());
            assert(before.last() matches OutgoingTile::Dummy);
            assert(spec_trim_dummies(before) == spec_trim_dummies(out@));
        }
    }
    proof {
        lemma_trim_no_trailing(untrimmed);
    }
    Ok((inc, out))
}

/// How one seat's reconstruction relates to the round's actions.
pub open spec fn spec_player_rel(
    s: Seq<Action>,
    start: int,
    end: int,
    idx: int,
    p: RoundPlayer,
) -> bool {
    let init = s[start]->INIT_0;
    &&& (spec_tiles_of(init.hai@[idx]@) matches Some(ts) && p.hand@.len() == ts.len()
        && p.hand@.to_multiset() == ts.to_multiset() && spec_hand_sorted(p.hand@))
    &&& (spec_replay(s, Player(idx as u8), start, end, None, false) matches Some(q)
        && p.incoming@ == q.0 && p.outgoing@ == spec_trim_dummies(q.1))
}

/// Whether every seat of a round can be reconstructed.
pub open spec fn spec_players_ok(s: Seq<Action>, start: int, end: int) -> bool {
    let init = s[start]->INIT_0;
    forall|idx: int|
        0 <= idx < init.hai@.len() ==> spec_tiles_of(#[trigger] init.hai@[idx]@) is Some
            && spec_replay(s, Player(idx as u8), start, end, None, false) is Some
}

/// The per-seat reconstructions of one round: the sorted starting hand
/// and the two replayed streams.
pub fn conv_round_players(actions: &Vec<Action>, start: usize, end: usize) -> (r: ConvResult<
    Vec<RoundPlayer>,
>)
    requires
        start < end <= actions@.len(),
        actions@[start as int] matches Action::INIT(..),
        actions@[start as int]->INIT_0.hai@.len() <= 4,
    ensures
        (r matches Ok(v) ==> v@.len() == actions@[start as int]->INIT_0.hai@.len() && (forall|
            idx: int,
        |
            0 <= idx < v@.len() ==> spec_player_rel(
                actions@,
                start as int,
                end as int,
                idx,
                #[trigger] v@[idx],
            ))),
        (r is Ok <==> spec_players_ok(actions@, start as int, end as int)),
{
    let ghost s = actions@;
    let init = match &actions[start] {
        Action::INIT(x) => x,
        _ => {
            proof {
                assert(false);
            }
            return Err(ConvError::InvalidRoundFormat);
        }
    };
    let mut players: Vec<RoundPlayer> = Vec::new();
    let mut idx: usize = 0;
    while idx < init.hai.len()
        invariant
            idx <= init.hai@.len() <= 4,
            start < end <= s.len(),
            s == actions@,
            s[start as int] matches Action::INIT(..),
            *init == s[start as int]->INIT_0,
            players@.len() == idx,
            forall|k: int|
                0 <= k < idx ==> spec_player_rel(s, start as int, end as int, k, #[trigger] players@[k]),
        decreases init.hai@.len() - idx,
    {
        let hand_raw = match conv_tiles(&init.hai[idx]) {
            Ok(h) => h,
            Err(er) => {
                proof {
                    assert(spec_tiles_of(init.hai@[idx as int]@) is None);
                    assert(!spec_players_ok(s, start as int, end as int));
                }
                return Err(er);
            }
        };
        let hand = sort_hand(hand_raw);
        let streams = match replay_actions(actions, Player(idx as u8), start, end) {
            Ok(p) => p,
            Err(er) => {
                proof {
                    assert(spec_replay(s, Player(idx as u8), start as int, end as int, None, false)
                        is None);
                    assert(!spec_players_ok(s, start as int, end as int));
                }
                return Err(er);
            }
        };
        players.push(RoundPlayer { hand, incoming: streams.0, outgoing: streams.1 });
        idx = idx + 1;
    }
    proof {
        assert forall|q: int|
            0 <= q < init.hai@.len() implies spec_tiles_of(#[trigger] init.hai@[q]@) is Some
            && spec_replay(s, Player(q as u8), start as int, end as int, None, false) is Some by {
            assert(spec_player_rel(s, start as int, end as int, q, players@[q]));
        }
    }
    Ok(players)
}

/// Whether a whole round converts.
pub open spec fn spec_round_ok(s: Seq<Action>, start: int, end: int) -> bool {
    &&& spec_round_setting_ok(s, start, end)
    &&& spec_players_ok(s, start, end)
    &&& spec_round_result_ok(s, start, end)
}

/// How a converted round relates to its actions.
pub open spec fn spec_round_rel(s: Seq<Action>, start: int, end: int, r: Round) -> bool {
    &&& spec_round_setting_rel(s, start, end, r.settings)
    &&& r.players@.len() == s[start]->INIT_0.hai@.len()
    &&& (forall|idx: int|
        0 <= idx < r.players@.len() ==> spec_player_rel(s, start, end, idx, #[trigger] r.players@[idx]))
    &&& spec_round_result_rel(s, start, end, s[start]->INIT_0.oya, r.result)
}

/// One round: settings, the four reconstructions, and the outcome.
pub fn conv_round(actions: &Vec<Action>, start: usize, end: usize) -> (r: ConvResult<Round>)
    requires
        start < end <= actions@.len(),
        actions@[start as int] matches Action::INIT(..),
        spec_points_ok(actions@[start as int]->INIT_0.ten@),
        actions@[start as int]->INIT_0.hai@.len() <= 4,
        forall|k: int|
            start <= k < end ==> ((#[trigger] actions@[k]) matches Action::AGARI(x)
                ==> spec_agari_wf(x)),
        forall|k: int|
            start <= k < end ==> ((#[trigger] actions@[k]) matches Action::RYUUKYOKU(x)
                ==> spec_points_ok(x.delta_points@)),
    ensures
        (r matches Ok(rd) ==> spec_round_rel(actions@, start as int, end as int, rd)),
        (r is Ok <==> spec_round_ok(actions@, start as int, end as int)),
{
    let settings = conv_round_setting(actions, start, end)?;
    let players = conv_round_players(actions, start, end)?;
    let result = conv_round_result(actions, start, end)?;
    Ok(Round { settings, players, result })
}

/// The connection events logged before the first round.
pub open spec fn spec_conn_pre(s: Seq<Action>, i: int, end: int) -> Seq<Connection>
    decreases end - i,
    when 0 <= i <= end <= s.len()
{
    if i >= end {
        Seq::empty()
    } else {
        match s[i] {
            Action::BYE(b) => seq![Connection { what: 0, log: -1i8, who: b.who.0, step: 0 }]
                + spec_conn_pre(s, i + 1, end),
            Action::UN2(u) => seq![Connection { what: 1, log: -1i8, who: u.who.0, step: 0 }]
                + spec_conn_pre(s, i + 1, end),
            _ => spec_conn_pre(s, i + 1, end),
        }
    }
}

/// The connection events within one round, placed by a step counter that
/// advances once per call, draw or discard.
pub open spec fn spec_conn_round(s: Seq<Action>, i: int, end: int, log: i8, step: int) -> Seq<
    Connection,
>
    decreases end - i,
    when 0 <= i <= end <= s.len()
{
    if i >= end {
        Seq::empty()
    } else {
        match s[i] {
            Action::BYE(b) => seq![
                Connection { what: 0, log, who: b.who.0, step: step as u32 },
            ] + spec_conn_round(s, i + 1, end, log, step),
            Action::UN2(u) => seq![
                Connection { what: 1, log, who: u.who.0, step: step as u32 },
            ] + spec_conn_round(s, i + 1, end, log, step),
            Action::N(_) => spec_conn_round(s, i + 1, end, log, step + 1),
            Action::DRAW(_) => spec_conn_round(s, i + 1, end, log, step + 1),
            Action::DISCARD(_) => spec_conn_round(s, i + 1, end, log, step + 1),
            _ => spec_conn_round(s, i + 1, end, log, step),
        }
    }
}

/// The connection events of all rounds.
pub open spec fn spec_conn_rounds(s: Seq<Action>, pairs: Seq<(usize, usize)>, k: int) -> Seq<
    Connection,
>
    decreases pairs.len() - k,
    when 0 <= k <= pairs.len()
{
    if k >= pairs.len() {
        Seq::empty()
    } else {
        let p = pairs[k];
        (if p.0 <= p.1 <= s.len() {
            spec_conn_round(s, p.0 as int, p.1 as int, k as i8, 0)
        } else {
            Seq::empty()
        }) + spec_conn_rounds(s, pairs, k + 1)
    }
}

/// The connection events of a whole log: those before the first round
/// carry a pre-match sentinel, those inside a round its index and step.
pub fn conv_connections(actions: &Vec<Action>, indices: &Vec<(usize, usize)>) -> (r: ConvResult<
    Vec<Connection>,
>)
    requires
        indices@.len() >= 1,
        indices@.len() <= 127,
        indices@[0].0 <= actions@.len(),
        actions@.len() <= 0x7fff_ffff,
        forall|k: int|
            0 <= k < indices@.len() ==> (#[trigger] indices@[k]).0 <= indices@[k].1
                <= actions@.len(),
    ensures
        r matches Ok(v) && v@ == spec_conn_pre(actions@, 0, indices@[0].0 as int)
            + spec_conn_rounds(actions@, indices@, 0),
{
    let ghost s = actions@;
    let mut out: Vec<Connection> = Vec::new();
    let pre_end = indices[0].0;
    let mut i: usize = 0;
    while i < pre_end
        invariant
            i <= pre_end <= s.len(),
            s == actions@,
            out@ + spec_conn_pre(s, i as int, pre_end as int) == spec_conn_pre(
                s,
                0,
                pre_end as int,
            ),
        decreases pre_end - i,
    {
        let ghost old_out = out@;
        match &actions[i] {
            Action::BYE(b) => {
                out.push(Connection { what: 0, log: -1, who: b.who.0, step: 0 });
                proof {
                    assert(old_out + (seq![
                        Connection { what: 0, log: -1i8, who: b.who.0, step: 0 },
                    ] + spec_conn_pre(s, i + 1, pre_end as int)) =~= out@ + spec_conn_pre(
                        s,
                        i + 1,
                        pre_end as int,
                    ));
                }
            }
            Action::UN2(u) => {
                out.push(Connection { what: 1, log: -1, who: u.who.0, step: 0 });
                proof {
                    assert(old_out + (seq![
                        Connection { what: 1, log: -1i8, who: u.who.0, step: 0 },
                    ] + spec_conn_pre(s, i + 1, pre_end as int)) =~= out@ + spec_conn_pre(
                        s,
                        i + 1,
                        pre_end as int,
                    ));
                }
            }
            _ => {}
        }
        i = i + 1;
    }
    proof {
        assert(out@ + Seq::<Connection>::empty() =~= out@);
    }
    let ghost pre = out@;
    let mut k: usize = 0;
    while k < indices.len()
        invariant
            k <= indices@.len() <= 127,
            s == actions@,
            s.len() <= 0x7fff_ffff,
            forall|q: int|
                0 <= q < indices@.len() ==> (#[trigger] indices@[q]).0 <= indices@[q].1 <= s.len(),
            pre == spec_conn_pre(s, 0, indices@[0].0 as int),
            out@ + spec_conn_rounds(s, indices@, k as int) == pre + spec_conn_rounds(
                s,
                indices@,
                0,
            ),
        decreases indices@.len() - k,
    {
        let (rstart, rend) = indices[k];
        let mut step: u32 = 0;
        let mut j: usize = rstart;
        proof {
            assert(spec_conn_rounds(s, indices@, k as int) == spec_conn_round(
                s,
                rstart as int,
                rend as int,
                k as i8,
                0,
            ) + spec_conn_rounds(s, indices@, k + 1));
        }
        while j < rend
            invariant
                rstart <= j <= rend <= s.len(),
                s == actions@,
                s.len() <= 0x7fff_ffff,
                k < indices@.len() <= 127,
                step <= j - rstart,
                out@ + spec_conn_round(s, j as int, rend as int, k as i8, step as int)
                    + spec_conn_rounds(s, indices@, k + 1) == pre + spec_conn_rounds(
                    s,
                    indices@,
                    0,
                ),
            decreases rend - j,
        {
            let ghost old_out = out@;
            match &actions[j] {
                Action::BYE(b) => {
                    out.push(Connection { what: 0, log: k as i8, who: b.who.0, step });
                    proof {
                        assert(old_out + (seq![
                            Connection { what: 0, log: k as i8, who: b.who.0, step: step as u32 },
                        ] + spec_conn_round(s, j + 1, rend as int, k as i8, step as int)) =~= out@
                            + spec_conn_round(s, j + 1, rend as int, k as i8, step as int));
                        assert((old_out + spec_conn_round(s, j as int, rend as int, k as i8, step as int))
                            + spec_conn_rounds(s, indices@, k + 1) =~= old_out + spec_conn_round(
                            s,
                            j as int,
                            rend as int,
                            k as i8,
                            step as int,
                        ) + spec_conn_rounds(s, indices@, k + 1));
                        assert(out@ + spec_conn_round(s, j + 1, rend as int, k as i8, step as int)
                            + spec_conn_rounds(s, indices@, k + 1) =~= pre + spec_conn_rounds(
                            s,
                            indices@,
                            0,
                        ));
                    }
                }
                Action::UN2(u) => {
                    out.push(Connection { what: 1, log: k as i8, who: u.who.0, step });
                    proof {
                        assert(old_out + (seq![
                            Connection { what: 1, log: k as i8, who: u.who.0, step: step as u32 },
                        ] + spec_conn_round(s, j + 1, rend as int, k as i8, step as int)) =~= out@
                            + spec_conn_round(s, j + 1, rend as int, k as i8, step as int));
                        assert(out@ + spec_conn_round(s, j + 1, rend as int, k as i8, step as int)
                            + spec_conn_rounds(s, indices@, k + 1) =~= pre + spec_conn_rounds(
                            s,
                            indices@,
                            0,
                        ));
                    }
                }
                Action::N(_) => {
                    step = step + 1;
                }
                Action::DRAW(_) => {
                    step = step + 1;
                }
                Action::DISCARD(_) => {
                    step = step + 1;
                }
                _ => {}
            }
            j = j + 1;
        }
        proof {
            assert(out@ + Seq::<Connection>::empty() + spec_conn_rounds(s, indices@, k + 1)
                =~= out@ + spec_conn_rounds(s, indices@, k + 1));
        }
        k = k + 1;
    }
    proof {
        assert(out@ + Seq::<Connection>::empty() =~= out@);
    }
    Ok(out)
}

/// The position of the first table-open record, if any.
pub open spec fn spec_first_go(s: Seq<Action>, i: int) -> Option<int>
    decreases s.len() - i,
    when 0 <= i <= s.len()
{
    if i >= s.len() {
        None
    } else if s[i] matches Action::GO(..) {
        Some(i)
    } else {
        spec_first_go(s, i + 1)
    }
}

/// The position of the first roster record, if any.
pub open spec fn spec_first_un1(s: Seq<Action>, i: int) -> Option<int>
    decreases s.len() - i,
    when 0 <= i <= s.len()
{
    if i >= s.len() {
        None
    } else if s[i] matches Action::UN1(..) {
        Some(i)
    } else {
        spec_first_un1(s, i + 1)
    }
}

proof fn lemma_first_go_bounds(s: Seq<Action>, i: int)
    requires
        0 <= i <= s.len(),
    ensures
        spec_first_go(s, i) matches Some(g) ==> i <= g < s.len() && s[g] matches Action::GO(..),
        spec_first_un1(s, i) matches Some(g) ==> i <= g < s.len() && s[g] matches Action::UN1(..),
    decreases s.len() - i,
{
    if i < s.len() {
        lemma_first_go_bounds(s, i + 1);
    }
}

/// What a whole log must satisfy for the conversion to be total: bounded
/// lengths and counters, and well-formed winning records.
pub open spec fn spec_action_conv_wf(a: Action) -> bool {
    match a {
        Action::INIT(x) => spec_points_ok(x.ten@) && x.hai@.len() <= 4,
        Action::AGARI(x) => spec_agari_wf(x) && (x.owari matches Some(o) ==> spec_points_ok(o.0@)),
        Action::RYUUKYOKU(x) => spec_points_ok(x.delta_points@) && (x.owari matches Some(o)
            ==> spec_points_ok(o.0@)),
        _ => true,
    }
}

pub open spec fn spec_mjlog_conv_wf(m: Mjlog) -> bool {
    &&& m.actions@.len() <= 0x7fff_ffff
    &&& spec_init_positions(m.actions@, 0).len() <= 127
    &&& forall|k: int| 0 <= k < m.actions@.len() ==> spec_action_conv_wf(#[trigger] m.actions@[k])
}

fn points_ok_check(v: &Vec<i32>) -> (r: bool)
    ensures
        r == spec_points_ok(v@),
{
    let mut i: usize = 0;
    while i < v.len()
        invariant
            i <= v@.len(),
            forall|k: int| 0 <= k < i ==> spec_pt_ok(#[trigger] v@[k] as int),
        decreases v@.len() - i,
    {
        let x = v[i];
        if !(-21474836 <= x && x <= 21474836) {
            proof {
                assert(!spec_pt_ok(v@[i as int] as int));
            }
            return false;
        }
        i = i + 1;
    }
    true
}

fn pair_sum_le_255(ps: &Vec<YakuPair>) -> (r: bool)
    ensures
        r == (spec_pair_sum(ps@) <= 255),
{
    let mut acc: u32 = 0;
    let mut i: usize = 0;
    proof {
        assert(ps@.skip(0) =~= ps@);
    }
    while i < ps.len()
        invariant
            i <= ps@.len(),
            acc <= 255,
            acc + spec_pair_sum(ps@.skip(i as int)) == spec_pair_sum(ps@),
        decreases ps@.len() - i,
    {
        proof {
            assert(ps@.skip(i as int)[0] == ps@[i as int]);
            assert(ps@.skip(i as int).drop_first() =~= ps@.skip(i + 1));
            lemma_pair_sum_nonneg(ps@.skip(i + 1));
        }
        let n = ps[i].level.get_number();
        if acc + (n as u32) > 255 {
            return false;
        }
        acc = acc + (n as u32);
        i = i + 1;
    }
    proof {
        assert(spec_pair_sum(ps@.skip(ps@.len() as int)) == 0);
    }
    true
}

fn agari_wf_check(x: &ActionAGARI) -> (r: bool)
    ensures
        r == (spec_agari_wf(*x) && (x.owari matches Some(o) ==> spec_points_ok(o.0@))),
{
    if !points_ok_check(&x.delta_points) {
        return false;
    }
    if x.yaku.len() == 0 && x.yakuman.len() == 0 {
        return false;
    }
    let converted = conv_yaku_vec(&x.yaku);
    if !pair_sum_le_255(&converted) {
        return false;
    }
    if x.yakuman.len() > 255 {
        return false;
    }
    match &x.owari {
        Some(o) => points_ok_check(&o.0),
        None => true,
    }
}

/// Whether a log satisfies everything the converter relies on; test this
/// before converting a log of unknown provenance.
pub fn mjlog_conv_wf_check(mjlog: &Mjlog) -> (r: bool)
    ensures
        r == spec_mjlog_conv_wf(*mjlog),
{
    if mjlog.actions.len() > 0x7fff_ffff {
        return false;
    }
    let mut inits: usize = 0;
    let mut i: usize = 0;
    while i < mjlog.actions.len()
        invariant
            i <= mjlog.actions@.len(),
            inits <= i,
            inits + spec_init_positions(mjlog.actions@, i as int).len() == spec_init_positions(
                mjlog.actions@,
                0,
            ).len(),
        decreases mjlog.actions@.len() - i,
    {
        match &mjlog.actions[i] {
            Action::INIT(_) => {
                inits = inits + 1;
            }
            _ => {}
        }
        i = i + 1;
    }
    if inits > 127 {
        return false;
    }
    let mut k: usize = 0;
    while k < mjlog.actions.len()
        invariant
            k <= mjlog.actions@.len(),
            forall|q: int| 0 <= q < k ==> spec_action_conv_wf(#[trigger] mjlog.actions@[q]),
        decreases mjlog.actions@.len() - k,
    {
        let ok = match &mjlog.actions[k] {
            Action::INIT(x) => points_ok_check(&x.ten) && x.hai.len() <= 4,
            Action::AGARI(x) => agari_wf_check(x),
            Action::RYUUKYOKU(x) => {
                points_ok_check(&x.delta_points) && (match &x.owari {
                    Some(o) => points_ok_check(&o.0),
                    None => true,
                })
            }
            _ => true,
        };
        if !ok {
            proof {
                assert(!spec_action_conv_wf(mjlog.actions@[k as int]));
            }
            return false;
        }
        k = k + 1;
    }
    true
}

/// Whether a whole log converts into a match record.
pub open spec fn spec_conv_ok(m: Mjlog) -> bool {
    let s = m.actions@;
    let inits = spec_init_positions(s, 0);
    &&& spec_first_go(s, 0) is Some
    &&& spec_first_un1(s, 0) is Some
    &&& inits.len() > 0
    &&& spec_last_terminal(s) matches Some(ix) && spec_owari_of(s[ix]) is Some
    &&& (forall|k: int|
        0 <= k < inits.len() ==> spec_round_ok(
            s,
            #[trigger] inits[k],
            if k + 1 < inits.len() {
                inits[k + 1]
            } else {
                s.len() as int
            },
        ))
}

/// How a converted match record relates to its log.
pub open spec fn spec_conv_rel(m: Mjlog, t: TenhouJson) -> bool {
    let s = m.actions@;
    let inits = spec_init_positions(s, 0);
    let go = s[spec_first_go(s, 0)->Some_0]->GO_0;
    let un1 = s[spec_first_un1(s, 0)->Some_0]->UN1_0;
    let owari = spec_owari_of(s[spec_last_terminal(s)->Some_0])->Some_0;
    &&& t.ver@ == "2.3"@
    &&& t.reference@ == Seq::<char>::empty()
    &&& t.ratingc@ == "PF4"@
    &&& spec_rule_matches(go.settings, t.rule)
    &&& t.lobby == go.lobby
    &&& t.dan@.len() == un1.dan@.len()
    &&& (forall|k: int|
        0 <= k < un1.dan@.len() ==> #[trigger] t.dan@[k]@ == spec_dan_text(un1.dan@[k]))
    &&& t.rate@.len() == un1.rate@.len()
    &&& (forall|k: int| 0 <= k < un1.rate@.len() ==> #[trigger] t.rate@[k]@ == un1.rate@[k]@)
    &&& t.sx@.len() == un1.sx@.len()
    &&& (forall|k: int| 0 <= k < un1.sx@.len() ==> #[trigger] t.sx@[k]@ == un1.sx@[k]@)
    &&& t.names@.len() == un1.names@.len()
    &&& (forall|k: int| 0 <= k < un1.names@.len() ==> #[trigger] t.names@[k]@ == un1.names@[k]@)
    &&& t.final_points@ == owari.0@.map_values(|x: i32| (100 * x as int) as i32)
    &&& t.final_results@.len() == owari.1@.len()
    &&& (forall|k: int|
        0 <= k < owari.1@.len() ==> #[trigger] t.final_results@[k]@ == owari.1@[k]@)
    &&& t.rounds@.len() == inits.len()
    &&& (forall|k: int|
        0 <= k < inits.len() ==> spec_round_rel(
            s,
            #[trigger] inits[k],
            if k + 1 < inits.len() {
                inits[k + 1]
            } else {
                s.len() as int
            },
            t.rounds@[k],
        ))
}

/// Builds the whole match record from a complete log: the table-open and
/// roster records pin the rules and players, the log splits into rounds,
/// and the reachable final standing concludes the match.
#[verifier::rlimit(100)]
#[verifier::spinoff_prover]
pub fn conv_to_tenhou_json(mjlog: &Mjlog) -> (r: ConvResult<TenhouJson>)
    requires
        spec_mjlog_conv_wf(*mjlog),
    ensures
        (spec_first_go(mjlog.actions@, 0) is None ==> r == Err::<TenhouJson, ConvError>(
            ConvError::NotFoundActionGO,
        )),
        (spec_first_go(mjlog.actions@, 0) is Some && spec_first_un1(mjlog.actions@, 0) is None
            ==> r == Err::<TenhouJson, ConvError>(ConvError::NotFoundActionUN1)),
        (spec_first_go(mjlog.actions@, 0) is Some && spec_first_un1(mjlog.actions@, 0) is Some
            && spec_init_positions(mjlog.actions@, 0).len() == 0 ==> r == Err::<
            TenhouJson,
            ConvError,
        >(ConvError::NotFoundRound)),
        (r matches Ok(t) ==> spec_conv_rel(*mjlog, t)),
        (r is Ok <==> spec_conv_ok(*mjlog)),
{
    let ghost s = mjlog.actions@;
    proof {
        lemma_first_go_bounds(s, 0);
        lemma_init_positions_bounds(s, 0);
        lemma_init_positions_are_inits(s, 0);
    }
    // the table-open record
    let mut go_idx: usize = 0;
    let mut found_go = false;
    let mut i: usize = 0;
    while i < mjlog.actions.len() && !found_go
        invariant
            i <= s.len(),
            s == mjlog.actions@,
            !found_go ==> spec_first_go(s, i as int) == spec_first_go(s, 0),
            found_go ==> spec_first_go(s, 0) == Some(go_idx as int) && go_idx < s.len(),
        decreases s.len() - i, (if found_go { 0int } else { 1int }),
    {
        match &mjlog.actions[i] {
            Action::GO(_) => {
                go_idx = i;
                found_go = true;
            }
            _ => {
                i = i + 1;
            }
        }
    }
    if !found_go {
        return Err(ConvError::NotFoundActionGO);
    }
    let action_go = match &mjlog.actions[go_idx] {
        Action::GO(x) => x,
        _ => {
            proof {
                assert(false);
            }
            return Err(ConvError::NotFoundActionGO);
        }
    };

    // the roster record
    let mut un_idx: usize = 0;
    let mut found_un = false;
    let mut j: usize = 0;
    while j < mjlog.actions.len() && !found_un
        invariant
            j <= s.len(),
            s == mjlog.actions@,
            !found_un ==> spec_first_un1(s, j as int) == spec_first_un1(s, 0),
            found_un ==> spec_first_un1(s, 0) == Some(un_idx as int) && un_idx < s.len(),
        decreases s.len() - j, (if found_un { 0int } else { 1int }),
    {
        match &mjlog.actions[j] {
            Action::UN1(_) => {
                un_idx = j;
                found_un = true;
            }
            _ => {
                j = j + 1;
            }
        }
    }
    if !found_un {
        return Err(ConvError::NotFoundActionUN1);
    }
    let action_un1 = match &mjlog.actions[un_idx] {
        Action::UN1(x) => x,
        _ => {
            proof {
                assert(false);
            }
            return Err(ConvError::NotFoundActionUN1);
        }
    };

    let round_indices = extract_round_indices(&mjlog.actions);
    if round_indices.len() == 0 {
        return Err(ConvError::NotFoundRound);
    }

    let final_raw = find_final_result(&mjlog.actions)?;
    proof {
        let ix = spec_last_terminal(s)->Some_0;
        lemma_last_terminal_bounds(s);
        assert(spec_action_conv_wf(s[ix]));
    }
    let final_points = scale_points(&final_raw.0);
    let final_results = final_raw.1;

    // the rounds
    let ghost inits = spec_init_positions(s, 0);
    let mut rounds: Vec<Round> = Vec::new();
    let mut k: usize = 0;
    while k < round_indices.len()
        invariant
            k <= round_indices@.len(),
            s == mjlog.actions@,
            spec_mjlog_conv_wf(*mjlog),
            inits == spec_init_positions(s, 0),
            spec_first_go(s, 0) is Some,
            spec_first_un1(s, 0) is Some,
            round_indices@.len() == inits.len(),
            inits.len() >= 1,
            forall|q: int| 0 <= q < inits.len() ==> (#[trigger] round_indices@[q]).0 == inits[q],
            forall|q: int|
                0 <= q < inits.len() ==> (#[trigger] round_indices@[q]).1 == (if q + 1
                    < inits.len() {
                    inits[q + 1]
                } else {
                    s.len() as int
                }),
            forall|q: int|
                0 <= q < inits.len() ==> #[trigger] inits[q] < s.len() && s[inits[q]] matches
                    Action::INIT(..),
            forall|q: int| 0 <= q < inits.len() - 1 ==> #[trigger] inits[q] < inits[q + 1],
            rounds@.len() == k,
            forall|q: int|
                0 <= q < k ==> spec_round_ok(
                    s,
                    #[trigger] inits[q],
                    if q + 1 < inits.len() {
                        inits[q + 1]
                    } else {
                        s.len() as int
                    },
                ),
            forall|q: int|
                0 <= q < k ==> spec_round_rel(
                    s,
                    #[trigger] inits[q],
                    if q + 1 < inits.len() {
                        inits[q + 1]
                    } else {
                        s.len() as int
                    },
                    rounds@[q],
                ),
        decreases round_indices@.len() - k,
    {
        let (rstart, rend) = round_indices[k];
        proof {
            assert(inits[k as int] < s.len());
            assert(rstart == inits[k as int]);
            if k + 1 < round_indices@.len() {
                assert(inits[k + 1] < s.len());
                assert(rend == inits[k + 1]);
            } else {
                assert(rend == s.len());
            }
            assert(s[rstart as int] matches Action::INIT(..));
            assert(spec_action_conv_wf(s[rstart as int]));
            if k + 1 < round_indices@.len() {
                assert(inits[k as int] < inits[k + 1]);
            }
            assert forall|q: int|
                rstart <= q < rend implies ((#[trigger] s[q]) matches Action::AGARI(x)
                ==> spec_agari_wf(x)) && ((s[q]) matches Action::RYUUKYOKU(y) ==> spec_points_ok(
                y.delta_points@,
            )) by {
                assert(spec_action_conv_wf(s[q]));
            }
        }
        let rd = match conv_round(&mjlog.actions, rstart, rend) {
            Ok(rd) => rd,
            Err(er) => {
                proof {
                    assert(!spec_round_ok(s, inits[k as int], if k + 1 < inits.len() {
                        inits[k + 1]
                    } else {
                        s.len() as int
                    }));
                    assert(!spec_conv_ok(*mjlog));
                }
                return Err(er);
            }
        };
        rounds.push(rd);
        k = k + 1;
    }

    let connections = conv_connections(&mjlog.actions, &round_indices)?;
    let rule = conv_rule(&action_go.settings)?;

    // the grades
    let mut dan: Vec<String> = Vec::new();
    let mut d: usize = 0;
    while d < action_un1.dan.len()
        invariant
            d <= action_un1.dan@.len(),
            dan@.len() == d,
            forall|q: int| 0 <= q < d ==> #[trigger] dan@[q]@ == spec_dan_text(action_un1.dan@[q]),
        decreases action_un1.dan@.len() - d,
    {
        dan.push(conv_dan(&action_un1.dan[d]));
        d = d + 1;
    }

    let rate = clone_string_vec(&action_un1.rate);
    let sx = clone_string_vec(&action_un1.sx);
    let names = clone_string_vec(&action_un1.names);

    proof {
        reveal_strlit("2.3");
        reveal_strlit("PF4");
        reveal_strlit("");
        assert(""@ =~= Seq::<char>::empty());
        assert(spec_conv_ok(*mjlog));
    }

    Ok(
        TenhouJson {
            ver: String::from_str("2.3"),
            reference: String::new(),
            rounds,
            connections,
            ratingc: String::from_str("PF4"),
            rule,
            lobby: action_go.lobby,
            dan,
            rate,
            sx,
            final_points,
            final_results,
            names,
        },
    )
}

/// The positions that the round splitter returns hold round-inits.
proof fn lemma_init_positions_are_inits(s: Seq<Action>, i: int)
    requires
        0 <= i <= s.len(),
    ensures
        forall|k: int|
            0 <= k < spec_init_positions(s, i).len() ==> 0 <= #[trigger] spec_init_positions(
                s,
                i,
            )[k] < s.len() && s[spec_init_positions(s, i)[k]] matches Action::INIT(..),
    decreases s.len() - i,
{
    lemma_init_positions_bounds(s, i);
    if i < s.len() {
        lemma_init_positions_are_inits(s, i + 1);
        let cur = spec_init_positions(s, i);
        let rest = spec_init_positions(s, i + 1);
        assert forall|k: int|
            0 <= k < cur.len() implies 0 <= #[trigger] cur[k] < s.len() && s[cur[k]] matches
            Action::INIT(..) by {
            if s[i] matches Action::INIT(..) {
                if k > 0 {
                    assert(cur[k] == rest[k - 1]);
                }
            } else {
                assert(cur[k] == rest[k]);
            }
        }
    }
}

/// The most recent terminal action lies in the log.
proof fn lemma_last_terminal_bounds(s: Seq<Action>)
    ensures
        spec_last_terminal(s) matches Some(ix) ==> 0 <= ix < s.len(),
    decreases s.len(),
{
    if s.len() > 0 {
        lemma_last_terminal_bounds(s.drop_last());
    }
}

/// The canonical physical ordinal of a tile: a red five maps to its
/// suit's red copy; any other tile maps to a black copy of its rank.
pub open spec fn spec_tile_to_hai(t: Tile) -> Hai {
    if t.0 == 51 {
        Hai(16)
    } else if t.0 == 52 {
        Hai(52)
    } else if t.0 == 53 {
        Hai(88)
    } else {
        let pict = (t.0 / 10 - 1) * 9 + (t.0 % 10 - 1);
        if t.0 % 10 == 5 && t.0 / 10 <= 3 {
            Hai((pict * 4 + 1) as u8)
        } else {
            Hai((pict * 4) as u8)
        }
    }
}

/// Converts a tile into a physical ordinal that converts back to it.
pub fn conv_tile_to_hai(t: Tile) -> (r: Hai)
    requires
        spec_valid_tile(t.0),
    ensures
        r == spec_tile_to_hai(t),
{
    if t.0 == 51 {
        Hai(16)
    } else if t.0 == 52 {
        Hai(52)
    } else if t.0 == 53 {
        Hai(88)
    } else {
        let pict = (t.0 / 10 - 1) * 9 + (t.0 % 10 - 1);
        if t.0 % 10 == 5 && t.0 / 10 <= 3 {
            Hai(pict * 4 + 1)
        } else {
            Hai(pict * 4)
        }
    }
}

/// The tile codec round trips: every valid tile comes back unchanged
/// from its canonical ordinal, and every one of the 136 physical
/// ordinals decodes to a valid tile that round trips the same way.
pub proof fn lemma_tile_codec_round_trip(t: Tile, h: Hai)
    requires
        spec_valid_tile(t.0),
        h.0 < 136,
    ensures
        spec_hai_to_tile(spec_tile_to_hai(t), true) == Some(t),
        spec_hai_to_tile(h, true) matches Some(t2) && spec_valid_tile(t2.0),
{
    // every ordinal decodes to a valid tile
    if h.0 != 16 && h.0 != 52 && h.0 != 88 {
        let pict = h.0 as int / 4;
        assert(pict <= 33);
        let d = pict / 9;
        let m = pict % 9;
        assert(0 <= d <= 3 && 0 <= m <= 8);
        if d == 3 {
            assert(pict <= 33);
            assert(m <= 6) by {
                crate::mjlog::parser::lemma_divmod(9, d, m);
            }
        }
        let code = (d + 1) * 10 + m + 1;
        assert(spec_valid_tile(code as u8));
    }
    // every valid tile comes back from its canonical ordinal
    if t.0 != 51 && t.0 != 52 && t.0 != 53 {
        let d = t.0 as int / 10;
        let m = t.0 as int % 10;
        assert(1 <= d <= 4);
        assert(if d == 4 {
            1 <= m <= 7
        } else {
            1 <= m <= 9
        });
        let pict = (d - 1) * 9 + (m - 1);
        crate::mjlog::parser::lemma_divmod(4, pict, if t.0 % 10 == 5 && t.0 / 10 <= 3 {
            1int
        } else {
            0int
        });
        crate::mjlog::parser::lemma_divmod(9, d - 1, m - 1);
        let hv = spec_tile_to_hai(t);
        assert(hv.0 as int == pict * 4 + (if t.0 % 10 == 5 && t.0 / 10 <= 3 {
            1int
        } else {
            0int
        }));
        assert(hv.0 != 16 && hv.0 != 52 && hv.0 != 88) by {
            if hv.0 == 16 || hv.0 == 52 || hv.0 == 88 {
                assert(pict * 4 == hv.0 as int || pict * 4 + 1 == hv.0 as int);
            }
        }
        assert(hv.0 as int / 4 == pict);
        assert(pict / 9 == d - 1 && pict % 9 == m - 1);
        assert((pict / 9 + 1) * 10 + pict % 9 + 1 == t.0 as int);
    }
}

} // verus!
