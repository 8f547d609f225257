//! The writer of the array-based text encoding: canonical stream entries
//! become bare codes or decorated strings, and a whole match record
//! becomes a document tree of plain values.

use crate::text::{append_u32, dec_digits};
use crate::tenhou::model::{
    Agari, Connection, ExtraRyuukyokuReason, Direction, GamePoint, IncomingTile, OutgoingTile,
    Round, RoundPlayer, RoundResult, RoundSettings, Rule, TenhouJson, Tile, Yaku, YakuLevel,
    YakuPair, spec_reason_text, spec_to_black, spec_yaku_text,
};
use crate::tenhou::parser::{JVal, TenhouJsonResult};
use crate::tenhou::score::spec_ranked_score_text;
use vstd::prelude::*;
use vstd::string::StringExecFns;

verus! {

/// The two-digit text of a tile code.
pub open spec fn spec_tile_digits(t: Tile) -> Seq<char> {
    dec_digits(t.0 as int)
}

/// Whether a stream entry names a seat it cannot display: a call shown
/// with a direction must come from another seat.
pub open spec fn spec_incoming_exportable(x: IncomingTile) -> bool {
    match x {
        IncomingTile::Tsumo(..) => true,
        IncomingTile::Chii { .. } => true,
        IncomingTile::Pon { dir, .. } => dir != Direction::SelfSeat,
        IncomingTile::Daiminkan { dir, .. } => dir != Direction::SelfSeat,
    }
}

pub open spec fn spec_outgoing_exportable(x: OutgoingTile) -> bool {
    match x {
        OutgoingTile::Kakan { dir, .. } => dir != Direction::SelfSeat,
        _ => true,
    }
}

/// The token of an incoming-stream entry: a bare ordinal for a draw, a
/// decorated string for a call, the letter at the caller's offset.
pub open spec fn spec_incoming_text(x: IncomingTile) -> Seq<char> {
    match x {
        IncomingTile::Tsumo(t) => spec_tile_digits(t),
        IncomingTile::Chii { combination } => {
            let (t1, t2, t3) = combination;
            seq!['c'] + spec_tile_digits(t1) + spec_tile_digits(t2) + spec_tile_digits(t3)
        },
        IncomingTile::Pon { combination, dir } => {
            let (t1, t2, t3) = combination;
            if dir == Direction::Kamicha {
                seq!['p'] + spec_tile_digits(t1) + spec_tile_digits(t2) + spec_tile_digits(t3)
            } else if dir == Direction::Toimen {
                spec_tile_digits(t1) + seq!['p'] + spec_tile_digits(t2) + spec_tile_digits(t3)
            } else {
                spec_tile_digits(t1) + spec_tile_digits(t2) + seq!['p'] + spec_tile_digits(t3)
            }
        },
        IncomingTile::Daiminkan { combination, dir } => {
            let (t1, t2, t3, t4) = combination;
            if dir == Direction::Kamicha {
                seq!['m'] + spec_tile_digits(t1) + spec_tile_digits(t2) + spec_tile_digits(t3)
                    + spec_tile_digits(t4)
            } else if dir == Direction::Toimen {
                spec_tile_digits(t1) + seq!['m'] + spec_tile_digits(t2) + spec_tile_digits(t3)
                    + spec_tile_digits(t4)
            } else {
                spec_tile_digits(t1) + spec_tile_digits(t2) + spec_tile_digits(t3) + seq!['m']
                    + spec_tile_digits(t4)
            }
        },
    }
}

/// How an exported incoming token relates to its entry.
pub open spec fn spec_incoming_rel(x: IncomingTile, v: JVal) -> bool {
    match x {
        IncomingTile::Tsumo(t) => v == JVal::Int(t.0 as i64),
        _ => v matches JVal::Str(s) && s@ == spec_incoming_text(x),
    }
}

fn append_tile(s: &mut String, t: Tile)
    ensures
        final(s)@ == old(s)@ + spec_tile_digits(t),
{
    append_u32(s, t.0 as u32);
}

fn append_letter(s: &mut String, c: char)
    requires
        c == 'c' || c == 'p' || c == 'm' || c == 'r' || c == 'a' || c == 'k',
    ensures
        final(s)@ == old(s)@ + seq![c],
{
    proof {
        reveal_strlit("c");
        reveal_strlit("p");
        reveal_strlit("m");
        reveal_strlit("r");
        reveal_strlit("a");
        reveal_strlit("k");
    }
    if c == 'c' {
        proof {
            assert("c"@ =~= seq!['c']);
        }
        s.push('c');
        proof {
            assert(s@ =~= old(s)@ + seq!['c']);
        }
    } else if c == 'p' {
        s.push('p');
        proof {
            assert(s@ =~= old(s)@ + seq!['p']);
        }
    } else if c == 'm' {
        s.push('m');
        proof {
            assert(s@ =~= old(s)@ + seq!['m']);
        }
    } else if c == 'r' {
        s.push('r');
        proof {
            assert(s@ =~= old(s)@ + seq!['r']);
        }
    } else if c == 'a' {
        s.push('a');
        proof {
            assert(s@ =~= old(s)@ + seq!['a']);
        }
    } else {
        s.push('k');
        proof {
            assert(s@ =~= old(s)@ + seq!['k']);
        }
    }
}

/// Writes an incoming-stream entry as its token.
pub fn export_incoming_tile(incoming: &IncomingTile) -> (r: JVal)
    requires
        spec_incoming_exportable(*incoming),
    ensures
        spec_incoming_rel(*incoming, r),
{
    match incoming {
        IncomingTile::Tsumo(t) => JVal::Int(t.0 as i64),
        IncomingTile::Chii { combination } => {
            let (t1, t2, t3) = *combination;
            let mut s = String::new();
            append_letter(&mut s, 'c');
            append_tile(&mut s, t1);
            append_tile(&mut s, t2);
            append_tile(&mut s, t3);
            proof {
                assert(s@ =~= spec_incoming_text(*incoming));
            }
            JVal::Str(s)
        }
        IncomingTile::Pon { combination, dir } => {
            let (t1, t2, t3) = *combination;
            let mut s = String::new();
            match dir {
                Direction::Kamicha => {
                    append_letter(&mut s, 'p');
                    append_tile(&mut s, t1);
                    append_tile(&mut s, t2);
                    append_tile(&mut s, t3);
                }
                Direction::Toimen => {
                    append_tile(&mut s, t1);
                    append_letter(&mut s, 'p');
                    append_tile(&mut s, t2);
                    append_tile(&mut s, t3);
                }
                _ => {
                    append_tile(&mut s, t1);
                    append_tile(&mut s, t2);
                    append_letter(&mut s, 'p');
                    append_tile(&mut s, t3);
                }
            }
            proof {
                assert(s@ =~= spec_incoming_text(*incoming));
            }
            JVal::Str(s)
        }
        IncomingTile::Daiminkan { combination, dir } => {
            let (t1, t2, t3, t4) = *combination;
            let mut s = String::new();
            match dir {
                Direction::Kamicha => {
                    append_letter(&mut s, 'm');
                    append_tile(&mut s, t1);
                    append_tile(&mut s, t2);
                    append_tile(&mut s, t3);
                    append_tile(&mut s, t4);
                }
                Direction::Toimen => {
                    append_tile(&mut s, t1);
                    append_letter(&mut s, 'm');
                    append_tile(&mut s, t2);
                    append_tile(&mut s, t3);
                    append_tile(&mut s, t4);
                }
                _ => {
                    append_tile(&mut s, t1);
                    append_tile(&mut s, t2);
                    append_tile(&mut s, t3);
                    append_letter(&mut s, 'm');
                    append_tile(&mut s, t4);
                }
            }
            proof {
                assert(s@ =~= spec_incoming_text(*incoming));
            }
            JVal::Str(s)
        }
    }
}

/// The token of an outgoing-stream entry. A closed quad shows three
/// black copies, the letter, then the kept copy, which carries the red
/// mark when one was used; an added quad puts the added copy right after
/// its letter.
pub open spec fn spec_outgoing_text(x: OutgoingTile) -> Seq<char> {
    match x {
        OutgoingTile::Riichi(t) => seq!['r'] + spec_tile_digits(t),
        OutgoingTile::TsumogiriRiichi => seq!['r'] + dec_digits(60),
        OutgoingTile::Ankan(t) => {
            let b = spec_to_black(t);
            spec_tile_digits(b) + spec_tile_digits(b) + spec_tile_digits(b) + seq!['a']
                + spec_tile_digits(t)
        },
        OutgoingTile::Kakan { combination, dir, added } => {
            let (t1, t2, t3) = combination;
            if dir == Direction::Kamicha {
                seq!['k'] + spec_tile_digits(added) + spec_tile_digits(t1) + spec_tile_digits(t2)
                    + spec_tile_digits(t3)
            } else if dir == Direction::Toimen {
                spec_tile_digits(t1) + seq!['k'] + spec_tile_digits(added) + spec_tile_digits(t2)
                    + spec_tile_digits(t3)
            } else {
                spec_tile_digits(t1) + spec_tile_digits(t2) + seq!['k'] + spec_tile_digits(added)
                    + spec_tile_digits(t3)
            }
        },
        _ => Seq::empty(),
    }
}

/// How an exported outgoing token relates to its entry.
pub open spec fn spec_outgoing_rel(x: OutgoingTile, v: JVal) -> bool {
    match x {
        OutgoingTile::Discard(t) => v == JVal::Int(t.0 as i64),
        OutgoingTile::Tsumogiri => v == JVal::Int(60),
        OutgoingTile::Dummy => v == JVal::Int(0),
        _ => v matches JVal::Str(s) && s@ == spec_outgoing_text(x),
    }
}

/// Writes an outgoing-stream entry as its token.
pub fn export_outgoing_tile(outgoing: &OutgoingTile) -> (r: JVal)
    requires
        spec_outgoing_exportable(*outgoing),
    ensures
        spec_outgoing_rel(*outgoing, r),
{
    match outgoing {
        OutgoingTile::Discard(t) => JVal::Int(t.0 as i64),
        OutgoingTile::Tsumogiri => JVal::Int(60),
        OutgoingTile::Dummy => JVal::Int(0),
        OutgoingTile::TsumogiriRiichi => {
            let mut s = String::new();
            append_letter(&mut s, 'r');
            append_u32(&mut s, 60);
            proof {
                assert(s@ =~= spec_outgoing_text(*outgoing));
            }
            JVal::Str(s)
        }
        OutgoingTile::Riichi(t) => {
            let mut s = String::new();
            append_letter(&mut s, 'r');
            append_tile(&mut s, *t);
            proof {
                assert(s@ =~= spec_outgoing_text(*outgoing));
            }
            JVal::Str(s)
        }
        OutgoingTile::Ankan(t) => {
            let b = t.to_black();
            let mut s = String::new();
            append_tile(&mut s, b);
            append_tile(&mut s, b);
            append_tile(&mut s, b);
            append_letter(&mut s, 'a');
            append_tile(&mut s, *t);
            proof {
                assert(s@ =~= spec_outgoing_text(*outgoing));
            }
            JVal::Str(s)
        }
        OutgoingTile::Kakan { combination, dir, added } => {
            let (t1, t2, t3) = *combination;
            let mut s = String::new();
            match dir {
                Direction::Kamicha => {
                    append_letter(&mut s, 'k');
                    append_tile(&mut s, *added);
                    append_tile(&mut s, t1);
                    append_tile(&mut s, t2);
                    append_tile(&mut s, t3);
                }
                Direction::Toimen => {
                    append_tile(&mut s, t1);
                    append_letter(&mut s, 'k');
                    append_tile(&mut s, *added);
                    append_tile(&mut s, t2);
                    append_tile(&mut s, t3);
                }
                _ => {
                    append_tile(&mut s, t1);
                    append_tile(&mut s, t2);
                    append_letter(&mut s, 'k');
                    append_tile(&mut s, *added);
                    append_tile(&mut s, t3);
                }
            }
            proof {
                assert(s@ =~= spec_outgoing_text(*outgoing));
            }
            JVal::Str(s)
        }
    }
}

/// The text of a yaku with its level, `name(n飜)` or `name(役満)`.
pub open spec fn spec_yaku_pair_text(p: YakuPair) -> Seq<char> {
    spec_yaku_text(p.yaku) + seq!['('] + (match p.level {
        YakuLevel::Normal(x) => dec_digits(x as int) + seq!['飜'],
        YakuLevel::Yakuman(_) => "役満"@,
    }) + seq![')']
}

/// Writes a yaku with its level.
pub fn export_yaku_pair(p: &YakuPair) -> (r: String)
    ensures
        r@ == spec_yaku_pair_text(*p),
{
    proof {
        reveal_strlit("(");
        reveal_strlit(")");
        reveal_strlit("飜");
        reveal_strlit("役満");
    }
    let mut s = p.yaku.to_str().to_owned();
    s.append("(");
    match &p.level {
        YakuLevel::Normal(x) => {
            append_u32(&mut s, *x as u32);
            s.append("飜");
        }
        YakuLevel::Yakuman(_) => {
            s.append("役満");
        }
    }
    s.append(")");
    proof {
        assert(s@ =~= spec_yaku_pair_text(*p));
    }
    s
}

/// Exported tile arrays hold the bare codes.
pub open spec fn spec_tiles_rel(ts: Seq<Tile>, v: JVal) -> bool {
    v matches JVal::Arr(a) && a@.len() == ts.len() && (forall|k: int|
        0 <= k < ts.len() ==> #[trigger] a@[k] == JVal::Int(ts[k].0 as i64))
}

/// Writes a tile list.
pub fn export_tiles(ts: &Vec<Tile>) -> (r: JVal)
    ensures
        spec_tiles_rel(ts@, r),
{
    let mut out: Vec<JVal> = Vec::new();
    let mut i: usize = 0;
    while i < ts.len()
        invariant
            i <= ts@.len(),
            out@.len() == i,
            forall|k: int| 0 <= k < i ==> #[trigger] out@[k] == JVal::Int(ts@[k].0 as i64),
        decreases ts@.len() - i,
    {
        out.push(JVal::Int(ts[i].0 as i64));
        i = i + 1;
    }
    JVal::Arr(out)
}

/// Exported score arrays hold the raw amounts.
pub open spec fn spec_points_rel(ps: Seq<i32>, v: JVal) -> bool {
    v matches JVal::Arr(a) && a@.len() == ps.len() && (forall|k: int|
        0 <= k < ps.len() ==> #[trigger] a@[k] == JVal::Int(ps[k] as i64))
}

fn export_points(ps: &Vec<i32>) -> (r: JVal)
    ensures
        spec_points_rel(ps@, r),
{
    let mut out: Vec<JVal> = Vec::new();
    let mut i: usize = 0;
    while i < ps.len()
        invariant
            i <= ps@.len(),
            out@.len() == i,
            forall|k: int| 0 <= k < i ==> #[trigger] out@[k] == JVal::Int(ps@[k] as i64),
        decreases ps@.len() - i,
    {
        out.push(JVal::Int(ps[i] as i64));
        i = i + 1;
    }
    JVal::Arr(out)
}

/// How a winning record's two exported entries relate to it: the score
/// deltas, then the seats, the printed score and the printed yaku list.
pub open spec fn spec_agari_entry_rel(a: Agari, delta_v: JVal, detail_v: JVal) -> bool {
    &&& spec_points_rel(a.delta_points@, delta_v)
    &&& (detail_v matches JVal::Arr(xs) && xs@.len() == 4 + a.yaku@.len() && xs@[0] == JVal::Int(
        a.who as i64,
    ) && xs@[1] == JVal::Int(a.from_who as i64) && xs@[2] == JVal::Int(a.pao_who as i64) && (
    xs@[3] matches JVal::Str(sc) && sc@ == spec_ranked_score_text(a.ranked_score)) && (forall|
        k: int,
    |
        0 <= k < a.yaku@.len() ==> ((#[trigger] xs@[4 + k]) matches JVal::Str(sy) && sy@
            == spec_yaku_pair_text(a.yaku@[k]))))
}

/// How an exported round outcome relates to the outcome: a win carries
/// the win word and two entries per winner; a draw carries the reason
/// word, and the score deltas when any were recorded.
pub open spec fn spec_result_rel(res: RoundResult, v: JVal) -> bool {
    match res {
        RoundResult::Agari { agari_vec } => (v matches JVal::Arr(xs) && xs@.len() == 1 + 2
            * agari_vec@.len() && ((#[trigger] xs@[0]) matches JVal::Str(h) && h@ == "和了"@) && (
        forall|k: int|
            0 <= k < agari_vec@.len() ==> spec_agari_entry_rel(
                #[trigger] agari_vec@[k],
                xs@[1 + 2 * k],
                xs@[2 + 2 * k],
            ))),
        RoundResult::Ryuukyoku { reason, delta_points } => if delta_points@.len() == 0 {
            (v matches JVal::Arr(xs) && xs@.len() == 1 && (xs@[0] matches JVal::Str(h) && h@
                == spec_reason_text(reason)))
        } else {
            (v matches JVal::Arr(xs) && xs@.len() == 2 && (xs@[0] matches JVal::Str(h) && h@
                == spec_reason_text(reason)) && spec_points_rel(delta_points@, xs@[1]))
        },
    }
}

/// Writes a round outcome.
pub fn export_round_result(result: &RoundResult) -> (r: JVal)
    ensures
        spec_result_rel(*result, r),
{
    match result {
        RoundResult::Agari { agari_vec } => {
            proof {
                reveal_strlit("和了");
            }
            let mut xs: Vec<JVal> = Vec::new();
            xs.push(JVal::Str(String::from_str("和了")));
            let mut i: usize = 0;
            while i < agari_vec.len()
                invariant
                    i <= agari_vec@.len(),
                    xs@.len() == 1 + 2 * i,
                    (xs@[0] matches JVal::Str(h) && h@ == "和了"@),
                    forall|k: int|
                        0 <= k < i ==> spec_agari_entry_rel(
                            #[trigger] agari_vec@[k],
                            xs@[1 + 2 * k],
                            xs@[2 + 2 * k],
                        ),
                decreases agari_vec@.len() - i,
            {
                let a = &agari_vec[i];
                xs.push(export_points(&a.delta_points));
                let mut detail: Vec<JVal> = Vec::new();
                detail.push(JVal::Int(a.who as i64));
                detail.push(JVal::Int(a.from_who as i64));
                detail.push(JVal::Int(a.pao_who as i64));
                detail.push(JVal::Str(a.ranked_score.to_text()));
                let mut y: usize = 0;
                while y < a.yaku.len()
                    invariant
                        y <= a.yaku@.len(),
                        detail@.len() == 4 + y,
                        detail@[0] == JVal::Int(a.who as i64),
                        detail@[1] == JVal::Int(a.from_who as i64),
                        detail@[2] == JVal::Int(a.pao_who as i64),
                        (detail@[3] matches JVal::Str(sc) && sc@ == spec_ranked_score_text(
                            a.ranked_score,
                        )),
                        forall|k: int|
                            0 <= k < y ==> ((#[trigger] detail@[4 + k]) matches JVal::Str(sy)
                                && sy@ == spec_yaku_pair_text(a.yaku@[k])),
                    decreases a.yaku@.len() - y,
                {
                    detail.push(JVal::Str(export_yaku_pair(&a.yaku[y])));
                    y = y + 1;
                }
                xs.push(JVal::Arr(detail));
                i = i + 1;
            }
            JVal::Arr(xs)
        }
        RoundResult::Ryuukyoku { reason, delta_points } => {
            let mut xs: Vec<JVal> = Vec::new();
            xs.push(JVal::Str(reason.to_str().to_owned()));
            if delta_points.len() > 0 {
                xs.push(export_points(delta_points));
            }
            JVal::Arr(xs)
        }
    }
}

/// Exported stream arrays hold one token per entry.
pub open spec fn spec_incomings_rel(ts: Seq<IncomingTile>, v: JVal) -> bool {
    v matches JVal::Arr(a) && a@.len() == ts.len() && (forall|k: int|
        0 <= k < ts.len() ==> spec_incoming_rel(#[trigger] ts[k], a@[k]))
}

pub open spec fn spec_outgoings_rel(ts: Seq<OutgoingTile>, v: JVal) -> bool {
    v matches JVal::Arr(a) && a@.len() == ts.len() && (forall|k: int|
        0 <= k < ts.len() ==> spec_outgoing_rel(#[trigger] ts[k], a@[k]))
}

fn export_incoming_tiles(ts: &Vec<IncomingTile>) -> (r: JVal)
    requires
        forall|k: int| 0 <= k < ts@.len() ==> spec_incoming_exportable(#[trigger] ts@[k]),
    ensures
        spec_incomings_rel(ts@, r),
{
    let mut out: Vec<JVal> = Vec::new();
    let mut i: usize = 0;
    while i < ts.len()
        invariant
            i <= ts@.len(),
            forall|k: int| 0 <= k < ts@.len() ==> spec_incoming_exportable(#[trigger] ts@[k]),
            out@.len() == i,
            forall|k: int| 0 <= k < i ==> spec_incoming_rel(#[trigger] ts@[k], out@[k]),
        decreases ts@.len() - i,
    {
        out.push(export_incoming_tile(&ts[i]));
        i = i + 1;
    }
    JVal::Arr(out)
}

fn export_outgoing_tiles(ts: &Vec<OutgoingTile>) -> (r: JVal)
    requires
        forall|k: int| 0 <= k < ts@.len() ==> spec_outgoing_exportable(#[trigger] ts@[k]),
    ensures
        spec_outgoings_rel(ts@, r),
{
    let mut out: Vec<JVal> = Vec::new();
    let mut i: usize = 0;
    while i < ts.len()
        invariant
            i <= ts@.len(),
            forall|k: int| 0 <= k < ts@.len() ==> spec_outgoing_exportable(#[trigger] ts@[k]),
            out@.len() == i,
            forall|k: int| 0 <= k < i ==> spec_outgoing_rel(#[trigger] ts@[k], out@[k]),
        decreases ts@.len() - i,
    {
        out.push(export_outgoing_tile(&ts[i]));
        i = i + 1;
    }
    JVal::Arr(out)
}

/// What a round must satisfy to be written out: four seats, and every
/// call shown with a direction coming from another seat.
pub open spec fn spec_round_exportable(rd: Round) -> bool {
    &&& rd.players@.len() == 4
    &&& (forall|p: int, k: int|
        0 <= p < 4 && 0 <= k < rd.players@[p].incoming@.len() ==> spec_incoming_exportable(
            #[trigger] rd.players@[p].incoming@[k],
        ))
    &&& (forall|p: int, k: int|
        0 <= p < 4 && 0 <= k < rd.players@[p].outgoing@.len() ==> spec_outgoing_exportable(
            #[trigger] rd.players@[p].outgoing@[k],
        ))
}

/// How an exported round relates to the round: the three counters, the
/// scores, the two indicator lists, three entries per seat, then the
/// outcome.
pub open spec fn spec_round_export_rel(rd: Round, v: JVal) -> bool {
    match v {
        JVal::Arr(xs) => {
            &&& xs@.len() == 17
            &&& ((xs@[0]) matches JVal::Arr(h) && h@.len() == 3 && h@[0] == JVal::Int(
                rd.settings.kyoku as i64,
            ) && h@[1] == JVal::Int(rd.settings.honba as i64) && h@[2] == JVal::Int(
                rd.settings.kyoutaku as i64,
            ))
            &&& spec_points_rel(rd.settings.points@, xs@[1])
            &&& spec_tiles_rel(rd.settings.dora@, xs@[2])
            &&& spec_tiles_rel(rd.settings.ura_dora@, xs@[3])
            &&& (forall|p: int|
                0 <= p < 4 ==> spec_tiles_rel((#[trigger] rd.players@[p]).hand@, xs@[4 + 3 * p])
                    && spec_incomings_rel(rd.players@[p].incoming@, xs@[5 + 3 * p])
                    && spec_outgoings_rel(rd.players@[p].outgoing@, xs@[6 + 3 * p]))
            &&& spec_result_rel(rd.result, xs@[16])
        },
        _ => false,
    }
}

/// Writes one round.
pub fn export_round(round: &Round) -> (r: JVal)
    requires
        spec_round_exportable(*round),
    ensures
        spec_round_export_rel(*round, r),
{
    let mut xs: Vec<JVal> = Vec::new();
    let mut head: Vec<JVal> = Vec::new();
    head.push(JVal::Int(round.settings.kyoku as i64));
    head.push(JVal::Int(round.settings.honba as i64));
    head.push(JVal::Int(round.settings.kyoutaku as i64));
    xs.push(JVal::Arr(head));
    xs.push(export_points(&round.settings.points));
    xs.push(export_tiles(&round.settings.dora));
    xs.push(export_tiles(&round.settings.ura_dora));
    let mut p: usize = 0;
    while p < 4
        invariant
            p <= 4,
            spec_round_exportable(*round),
            xs@.len() == 4 + 3 * p,
            ((xs@[0]) matches JVal::Arr(h) && h@.len() == 3 && h@[0] == JVal::Int(
                round.settings.kyoku as i64,
            ) && h@[1] == JVal::Int(round.settings.honba as i64) && h@[2] == JVal::Int(
                round.settings.kyoutaku as i64,
            )),
            spec_points_rel(round.settings.points@, xs@[1]),
            spec_tiles_rel(round.settings.dora@, xs@[2]),
            spec_tiles_rel(round.settings.ura_dora@, xs@[3]),
            forall|q: int|
                0 <= q < p ==> spec_tiles_rel((#[trigger] round.players@[q]).hand@, xs@[4 + 3 * q])
                    && spec_incomings_rel(round.players@[q].incoming@, xs@[5 + 3 * q])
                    && spec_outgoings_rel(round.players@[q].outgoing@, xs@[6 + 3 * q]),
        decreases 4 - p,
    {
        let pl = &round.players[p];
        xs.push(export_tiles(&pl.hand));
        xs.push(export_incoming_tiles(&pl.incoming));
        xs.push(export_outgoing_tiles(&pl.outgoing));
        p = p + 1;
    }
    xs.push(export_round_result(&round.result));
    JVal::Arr(xs)
}

/// How the exported match record relates to the match: the keyed fields
/// in their fixed order, with the connection list present only when it
/// is non-empty.
pub open spec fn spec_match_export_rel(t: TenhouJson, v: JVal) -> bool {
    let with_conn: int = if t.connections@.len() > 0 {
        1int
    } else {
        0int
    };
    match v {
        JVal::Obj(fields) => {
            &&& fields@.len() == 11 + with_conn
            &&& fields@[0].0@ == "ver"@
            &&& (fields@[0].1 matches JVal::Num(n) && n@ == t.ver@)
            &&& fields@[1].0@ == "ref"@
            &&& (fields@[1].1 matches JVal::Str(rf) && rf@ == t.reference@)
            &&& fields@[2].0@ == "log"@
            &&& (fields@[2].1 matches JVal::Arr(lg) && lg@.len() == t.rounds@.len() && (forall|
                k: int,
            |
                0 <= k < t.rounds@.len() ==> spec_round_export_rel(
                    #[trigger] t.rounds@[k],
                    lg@[k],
                )))
            &&& (with_conn == 1 ==> fields@[3].0@ == "connection"@ && (fields@[3].1 matches
                JVal::Arr(cn) && cn@.len() == t.connections@.len() && (forall|k: int|
                0 <= k < t.connections@.len() ==> ((#[trigger] cn@[k]) matches JVal::Obj(cf)
                    && cf@.len() == 4 && cf@[0].0@ == "what"@ && cf@[0].1 == JVal::Int(
                    t.connections@[k].what as i64,
                ) && cf@[1].0@ == "log"@ && cf@[1].1 == JVal::Int(t.connections@[k].log as i64)
                    && cf@[2].0@ == "who"@ && cf@[2].1 == JVal::Int(t.connections@[k].who as i64)
                    && cf@[3].0@ == "step"@ && cf@[3].1 == JVal::Int(
                    t.connections@[k].step as i64,
                )))))
            &&& fields@[3 + with_conn].0@ == "ratingc"@
            &&& (fields@[3 + with_conn].1 matches JVal::Str(rc) && rc@ == t.ratingc@)
            &&& fields@[4 + with_conn].0@ == "rule"@
            &&& (fields@[4 + with_conn].1 matches JVal::Obj(rl) && rl@.len() == 4 && rl@[0].0@
                == "disp"@ && (rl@[0].1 matches JVal::Str(dv) && dv@ == t.rule.disp@) && rl@[1].0@
                == "aka53"@ && rl@[1].1 == JVal::Int(
                if t.rule.aka53 {
                    1i64
                } else {
                    0i64
                },
            ) && rl@[2].0@ == "aka52"@ && rl@[2].1 == JVal::Int(
                if t.rule.aka52 {
                    1i64
                } else {
                    0i64
                },
            ) && rl@[3].0@ == "aka51"@ && rl@[3].1 == JVal::Int(
                if t.rule.aka51 {
                    1i64
                } else {
                    0i64
                },
            ))
            &&& fields@[5 + with_conn].0@ == "lobby"@
            &&& fields@[5 + with_conn].1 == JVal::Int(t.lobby as i64)
            &&& fields@[6 + with_conn].0@ == "dan"@
            &&& (fields@[6 + with_conn].1 matches JVal::Arr(dn) && dn@.len() == t.dan@.len() && (
            forall|k: int|
                0 <= k < t.dan@.len() ==> ((#[trigger] dn@[k]) matches JVal::Str(dv2) && dv2@
                    == t.dan@[k]@)))
            &&& fields@[7 + with_conn].0@ == "rate"@
            &&& (fields@[7 + with_conn].1 matches JVal::Arr(rt) && rt@.len() == t.rate@.len() && (
            forall|k: int|
                0 <= k < t.rate@.len() ==> ((#[trigger] rt@[k]) matches JVal::Num(rv) && rv@
                    == t.rate@[k]@)))
            &&& fields@[8 + with_conn].0@ == "sx"@
            &&& (fields@[8 + with_conn].1 matches JVal::Arr(sx) && sx@.len() == t.sx@.len() && (
            forall|k: int|
                0 <= k < t.sx@.len() ==> ((#[trigger] sx@[k]) matches JVal::Str(sv) && sv@
                    == t.sx@[k]@)))
            &&& fields@[9 + with_conn].0@ == "sc"@
            &&& (fields@[9 + with_conn].1 matches JVal::Arr(scs) && scs@.len() == 2
                * t.final_points@.len() && (forall|k: int|
                0 <= k < t.final_points@.len() ==> #[trigger] scs@[2 * k] == JVal::Int(
                    t.final_points@[k] as i64,
                ) && (k < t.final_results@.len() ==> (scs@[2 * k + 1] matches JVal::Num(fv) && fv@
                    == t.final_results@[k]@))))
            &&& fields@[10 + with_conn].0@ == "name"@
            &&& (fields@[10 + with_conn].1 matches JVal::Arr(nm) && nm@.len() == t.names@.len()
                && (forall|k: int|
                0 <= k < t.names@.len() ==> ((#[trigger] nm@[k]) matches JVal::Str(nv) && nv@
                    == t.names@[k]@)))
        },
        _ => false,
    }
}

/// Writes the whole match record as a document tree. The interleaved
/// final-standing list pairs each score with its result text; a result
/// list shorter than the score list ends the pairs early.
pub fn export_tenhou_json(src: &TenhouJson) -> (r: TenhouJsonResult<JVal>)
    requires
        forall|k: int| 0 <= k < src.rounds@.len() ==> spec_round_exportable(#[trigger] src.rounds@[k]),
        src.final_results@.len() >= src.final_points@.len(),
    ensures
        r matches Ok(v) && spec_match_export_rel(*src, v),
{
    proof {
        reveal_strlit("ver");
        reveal_strlit("ref");
        reveal_strlit("log");
        reveal_strlit("connection");
        reveal_strlit("ratingc");
        reveal_strlit("rule");
        reveal_strlit("disp");
        reveal_strlit("aka53");
        reveal_strlit("aka52");
        reveal_strlit("aka51");
        reveal_strlit("lobby");
        reveal_strlit("dan");
        reveal_strlit("rate");
        reveal_strlit("sx");
        reveal_strlit("sc");
        reveal_strlit("name");
        reveal_strlit("what");
        reveal_strlit("log");
        reveal_strlit("who");
        reveal_strlit("step");
    }
    let mut fields: Vec<(String, JVal)> = Vec::new();
    fields.push((String::from_str("ver"), JVal::Num(src.ver.clone())));
    proof {
        assert(fields@.last().0@ == "ver"@ && (fields@.last().1 matches JVal::Num(n) && n@
            == src.ver@));
    }
    fields.push((String::from_str("ref"), JVal::Str(src.reference.clone())));
    proof {
        assert(fields@.last().0@ == "ref"@ && (fields@.last().1 matches JVal::Str(rf) && rf@
            == src.reference@));
    }

    let mut rounds: Vec<JVal> = Vec::new();
    let mut i: usize = 0;
    while i < src.rounds.len()
        invariant
            i <= src.rounds@.len(),
            forall|k: int|
                0 <= k < src.rounds@.len() ==> spec_round_exportable(#[trigger] src.rounds@[k]),
            rounds@.len() == i,
            forall|k: int|
                0 <= k < i ==> spec_round_export_rel(#[trigger] src.rounds@[k], rounds@[k]),
        decreases src.rounds@.len() - i,
    {
        rounds.push(export_round(&src.rounds[i]));
        i = i + 1;
    }
    fields.push((String::from_str("log"), JVal::Arr(rounds)));
    proof {
        assert(fields@.last().0@ == "log"@ && (fields@.last().1 matches JVal::Arr(lg) && lg@.len()
            == src.rounds@.len() && (forall|k: int|
            0 <= k < src.rounds@.len() ==> spec_round_export_rel(
                #[trigger] src.rounds@[k],
                lg@[k],
            ))));
    }

    if src.connections.len() > 0 {
        let mut conns: Vec<JVal> = Vec::new();
        let mut c: usize = 0;
        while c < src.connections.len()
            invariant
                c <= src.connections@.len(),
                conns@.len() == c,
                forall|k: int|
                    0 <= k < c ==> ((#[trigger] conns@[k]) matches JVal::Obj(cf) && cf@.len() == 4
                        && cf@[0].0@ == "what"@ && cf@[0].1 == JVal::Int(
                        src.connections@[k].what as i64,
                    ) && cf@[1].0@ == "log"@ && cf@[1].1 == JVal::Int(src.connections@[k].log as i64)
                        && cf@[2].0@ == "who"@ && cf@[2].1 == JVal::Int(
                        src.connections@[k].who as i64,
                    ) && cf@[3].0@ == "step"@ && cf@[3].1 == JVal::Int(
                        src.connections@[k].step as i64,
                    )),
            decreases src.connections@.len() - c,
        {
            proof {
                reveal_strlit("what");
                reveal_strlit("log");
                reveal_strlit("who");
                reveal_strlit("step");
            }
            let cn = &src.connections[c];
            let mut cf: Vec<(String, JVal)> = Vec::new();
            cf.push((String::from_str("what"), JVal::Int(cn.what as i64)));
            cf.push((String::from_str("log"), JVal::Int(cn.log as i64)));
            cf.push((String::from_str("who"), JVal::Int(cn.who as i64)));
            cf.push((String::from_str("step"), JVal::Int(cn.step as i64)));
            conns.push(JVal::Obj(cf));
            c = c + 1;
        }
        fields.push((String::from_str("connection"), JVal::Arr(conns)));
        proof {
            assert(fields@.last().0@ == "connection"@ && (fields@.last().1 matches JVal::Arr(cn)
                && cn@.len() == src.connections@.len() && (forall|k: int|
                0 <= k < src.connections@.len() ==> ((#[trigger] cn@[k]) matches JVal::Obj(cf)
                    && cf@.len() == 4 && cf@[0].0@ == "what"@ && cf@[0].1 == JVal::Int(
                    src.connections@[k].what as i64,
                ) && cf@[1].0@ == "log"@ && cf@[1].1 == JVal::Int(src.connections@[k].log as i64)
                    && cf@[2].0@ == "who"@ && cf@[2].1 == JVal::Int(
                    src.connections@[k].who as i64,
                ) && cf@[3].0@ == "step"@ && cf@[3].1 == JVal::Int(
                    src.connections@[k].step as i64,
                )))));
        }
    }
    fields.push((String::from_str("ratingc"), JVal::Str(src.ratingc.clone())));
    proof {
        assert(fields@.last().0@ == "ratingc"@ && (fields@.last().1 matches JVal::Str(rc) && rc@
            == src.ratingc@));
    }

    let mut rl: Vec<(String, JVal)> = Vec::new();
    rl.push((String::from_str("disp"), JVal::Str(src.rule.disp.clone())));
    rl.push(
        (
            String::from_str("aka53"),
            JVal::Int(
                if src.rule.aka53 {
                    1i64
                } else {
                    0i64
                },
            ),
        ),
    );
    rl.push(
        (
            String::from_str("aka52"),
            JVal::Int(
                if src.rule.aka52 {
                    1i64
                } else {
                    0i64
                },
            ),
        ),
    );
    rl.push(
        (
            String::from_str("aka51"),
            JVal::Int(
                if src.rule.aka51 {
                    1i64
                } else {
                    0i64
                },
            ),
        ),
    );
    fields.push((String::from_str("rule"), JVal::Obj(rl)));
    proof {
        assert(fields@.last().0@ == "rule"@ && (fields@.last().1 matches JVal::Obj(rv) && rv@.len()
            == 4 && rv@[0].0@ == "disp"@ && (rv@[0].1 matches JVal::Str(dv) && dv@
            == src.rule.disp@) && rv@[1].0@ == "aka53"@ && rv@[1].1 == JVal::Int(
            if src.rule.aka53 {
                1i64
            } else {
                0i64
            },
        ) && rv@[2].0@ == "aka52"@ && rv@[2].1 == JVal::Int(
            if src.rule.aka52 {
                1i64
            } else {
                0i64
            },
        ) && rv@[3].0@ == "aka51"@ && rv@[3].1 == JVal::Int(
            if src.rule.aka51 {
                1i64
            } else {
                0i64
            },
        )));
    }
    fields.push((String::from_str("lobby"), JVal::Int(src.lobby as i64)));
    proof {
        assert(fields@.last().0@ == "lobby"@ && fields@.last().1 == JVal::Int(src.lobby as i64));
    }

    let mut dn: Vec<JVal> = Vec::new();
    let mut d: usize = 0;
    while d < src.dan.len()
        invariant
            d <= src.dan@.len(),
            dn@.len() == d,
            forall|k: int|
                0 <= k < d ==> ((#[trigger] dn@[k]) matches JVal::Str(dv) && dv@ == src.dan@[k]@),
        decreases src.dan@.len() - d,
    {
        dn.push(JVal::Str(src.dan[d].clone()));
        d = d + 1;
    }
    fields.push((String::from_str("dan"), JVal::Arr(dn)));
    proof {
        assert(fields@.last().0@ == "dan"@ && (fields@.last().1 matches JVal::Arr(a) && a@.len()
            == src.dan@.len() && (forall|k: int|
            0 <= k < src.dan@.len() ==> ((#[trigger] a@[k]) matches JVal::Str(dv2) && dv2@
                == src.dan@[k]@))));
    }

    let mut rt: Vec<JVal> = Vec::new();
    let mut q: usize = 0;
    while q < src.rate.len()
        invariant
            q <= src.rate@.len(),
            rt@.len() == q,
            forall|k: int|
                0 <= k < q ==> ((#[trigger] rt@[k]) matches JVal::Num(rv) && rv@ == src.rate@[k]@),
        decreases src.rate@.len() - q,
    {
        rt.push(JVal::Num(src.rate[q].clone()));
        q = q + 1;
    }
    fields.push((String::from_str("rate"), JVal::Arr(rt)));
    proof {
        assert(fields@.last().0@ == "rate"@ && (fields@.last().1 matches JVal::Arr(a) && a@.len()
            == src.rate@.len() && (forall|k: int|
            0 <= k < src.rate@.len() ==> ((#[trigger] a@[k]) matches JVal::Num(rv) && rv@
                == src.rate@[k]@))));
    }

    let mut sxv: Vec<JVal> = Vec::new();
    let mut x: usize = 0;
    while x < src.sx.len()
        invariant
            x <= src.sx@.len(),
            sxv@.len() == x,
            forall|k: int|
                0 <= k < x ==> ((#[trigger] sxv@[k]) matches JVal::Str(sv) && sv@ == src.sx@[k]@),
        decreases src.sx@.len() - x,
    {
        sxv.push(JVal::Str(src.sx[x].clone()));
        x = x + 1;
    }
    fields.push((String::from_str("sx"), JVal::Arr(sxv)));
    proof {
        assert(fields@.last().0@ == "sx"@ && (fields@.last().1 matches JVal::Arr(a) && a@.len()
            == src.sx@.len() && (forall|k: int|
            0 <= k < src.sx@.len() ==> ((#[trigger] a@[k]) matches JVal::Str(sv) && sv@
                == src.sx@[k]@))));
    }

    let mut scs: Vec<JVal> = Vec::new();
    let mut w: usize = 0;
    while w < src.final_points.len()
        invariant
            w <= src.final_points@.len(),
            src.final_results@.len() >= src.final_points@.len(),
            scs@.len() == 2 * w,
            forall|k: int|
                0 <= k < w ==> #[trigger] scs@[2 * k] == JVal::Int(src.final_points@[k] as i64)
                    && (scs@[2 * k + 1] matches JVal::Num(fv) && fv@ == src.final_results@[k]@),
        decreases src.final_points@.len() - w,
    {
        scs.push(JVal::Int(src.final_points[w] as i64));
        scs.push(JVal::Num(src.final_results[w].clone()));
        w = w + 1;
    }
    fields.push((String::from_str("sc"), JVal::Arr(scs)));
    proof {
        assert(fields@.last().0@ == "sc"@ && (fields@.last().1 matches JVal::Arr(a) && a@.len()
            == 2 * src.final_points@.len() && (forall|k: int|
            0 <= k < src.final_points@.len() ==> #[trigger] a@[2 * k] == JVal::Int(
                src.final_points@[k] as i64,
            ) && (k < src.final_results@.len() ==> (a@[2 * k + 1] matches JVal::Num(fv) && fv@
                == src.final_results@[k]@)))));
    }

    let mut nm: Vec<JVal> = Vec::new();
    let mut n: usize = 0;
    while n < src.names.len()
        invariant
            n <= src.names@.len(),
            nm@.len() == n,
            forall|k: int|
                0 <= k < n ==> ((#[trigger] nm@[k]) matches JVal::Str(nv) && nv@ == src.names@[k]@),
        decreases src.names@.len() - n,
    {
        nm.push(JVal::Str(src.names[n].clone()));
        n = n + 1;
    }
    fields.push((String::from_str("name"), JVal::Arr(nm)));
    proof {
        assert(fields@.last().0@ == "name"@ && (fields@.last().1 matches JVal::Arr(a) && a@.len()
            == src.names@.len() && (forall|k: int|
            0 <= k < src.names@.len() ==> ((#[trigger] a@[k]) matches JVal::Str(nv) && nv@
                == src.names@[k]@))));
    }

    proof {
        if src.connections@.len() > 0 {
            assert(fields@.len() == 12);
        } else {
            assert(fields@.len() == 11);
        }
    }
    Ok(JVal::Obj(fields))
}

} // verus!
