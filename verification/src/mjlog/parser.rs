//! The record interpreter of the compact encoding: each logged tag is a
//! name with attributes; this module turns such records into actions,
//! including the packed-integer call-descriptor codec.
//!
//! Tokenizing the surrounding document into records is the caller's
//! concern; records reach this module as plain names and attribute pairs.

use crate::mjlog::model::{
    Action, ActionAGARI, ActionBYE, ActionDISCARD, ActionDORA, ActionDRAW, ActionGO, ActionINIT,
    ActionN, ActionREACH1, ActionREACH2, ActionRYUUKYOKU, ActionSHUFFLE, ActionTAIKYOKU, ActionUN1,
    ActionUN2, Direction, ExtraRyuukyokuReason, GamePoint, GameSettings, Hai, InitSeed, Meld,
    Mjlog, ParseError, Player, ScoreRank, TenhouRank, TenhouRoom, Yaku, spec_direction_from_u8,
    spec_mj_reason_from_text, spec_rank_from_u8, spec_room_from_u8, spec_score_rank_from_u8,
    spec_yaku_from_u8,
};
use vstd::prelude::*;

verus! {

/// An interpretation failure. The document layer's own failures are
/// carried through the `Xml` variant.
#[derive(Debug, PartialEq, Clone)]
pub enum MjlogError {
    Xml(String),
    ObjectParseError(ParseError),
    ParseError(String),
    InvalidRyuukyokuReason(String),
    InvalidTenhouRank(String),
    AttributeNotFound(String),
    VersionNotDefined,
    InvalidReachStep(u8),
    InvalidNameNum(usize),
    InvalidBaLength(usize),
    InvalidTenLength(usize),
    InvalidYakuNum(u8),
    InvalidScoreRank(u8),
    InvalidOwari,
    UnexpectedPI,
    UnexpectedCData,
    UnexpectedText,
    UnexpectedPeiNuki,
    UnexpectedEof,
    UnexpectedTag(String),
    DomainMismatch,
}

pub type MjlogResult<T> = Result<T, MjlogError>;

/// The direction encoded in the two low bits of a call descriptor.
pub open spec fn spec_dir_of(x: int) -> Direction {
    if x == 0 {
        Direction::SelfSeat
    } else if x == 1 {
        Direction::Shimocha
    } else if x == 2 {
        Direction::Toimen
    } else {
        Direction::Kamicha
    }
}

/// The two low bits that encode a direction.
pub open spec fn spec_dir_code(d: Direction) -> int {
    match d {
        Direction::SelfSeat => 0,
        Direction::Shimocha => 1,
        Direction::Toimen => 2,
        Direction::Kamicha => 3,
    }
}

/// The ordinal in slot `k` of a same-rank call: the four copies of the
/// rank, with the copy at `off` moved to the last slot.
pub open spec fn spec_pon_slot(base: int, off: int, k: int) -> int {
    if off == 3 {
        base + k
    } else if k == off {
        base + 3
    } else if k == 3 {
        base + off
    } else {
        base + k
    }
}

/// Whether a packed call descriptor is one of the supported layouts:
/// everything but the opt-out seat-exchange call.
pub open spec fn spec_meld_supported(m: u16) -> bool {
    (m / 4) % 2 == 1 || (m / 8) % 2 == 1 || (m / 16) % 2 == 1 || (m / 32) % 2 == 0
}

/// The call that a supported packed descriptor denotes.
pub open spec fn spec_decoded_meld(m: u16) -> Meld {
    let dir = spec_dir_of((m % 4) as int);
    if (m / 4) % 2 == 1 {
        let pattern = m / 1024;
        let base = ((pattern / 3) / 7 * 9 + (pattern / 3) % 7) * 4;
        Meld::Chii {
            combination: (
                Hai((base + (m / 8) % 4) as u8),
                Hai((base + 4 + (m / 32) % 4) as u8),
                Hai((base + 8 + (m / 128) % 4) as u8),
            ),
            called_position: (pattern % 3) as u8,
        }
    } else if (m / 8) % 2 == 1 || (m / 16) % 2 == 1 {
        let pattern = m / 512;
        let off = ((m / 32) % 4) as int;
        let base = (pattern / 3) as int * 4;
        let combination = (
            Hai(spec_pon_slot(base, off, 0) as u8),
            Hai(spec_pon_slot(base, off, 1) as u8),
            Hai(spec_pon_slot(base, off, 2) as u8),
        );
        let called = Hai(spec_pon_slot(base, off, (pattern % 3) as int) as u8);
        let last = Hai(spec_pon_slot(base, off, 3) as u8);
        if (m / 16) % 2 == 1 {
            Meld::Kakan { dir, combination, called, added: last }
        } else {
            Meld::Pon { dir, combination, called, unused: last }
        }
    } else {
        let hai = Hai((m / 256) as u8);
        if m % 4 == 0 {
            Meld::Ankan { hai }
        } else {
            Meld::Daiminkan { dir, hai }
        }
    }
}

/// Decodes a packed call descriptor. The opt-out seat-exchange call is
/// recognized but unsupported.
pub fn conv_meld_from_u16(m: u16) -> (r: MjlogResult<Meld>)
    ensures
        spec_meld_supported(m) ==> r == Ok::<Meld, MjlogError>(spec_decoded_meld(m)),
        !spec_meld_supported(m) ==> r == Err::<Meld, MjlogError>(MjlogError::UnexpectedPeiNuki),
{
    let dir_code = (m % 4) as u8;
    let dir = if dir_code == 0 {
        Direction::SelfSeat
    } else if dir_code == 1 {
        Direction::Shimocha
    } else if dir_code == 2 {
        Direction::Toimen
    } else {
        Direction::Kamicha
    };

    if (m / 4) % 2 == 1 {
        let pattern = m / 1024;
        let called_position = (pattern % 3) as u8;
        let min_number = ((pattern / 3) % 7) as u8;
        let kind = ((pattern / 3) / 7) as u8;

        let offset_min = ((m / 8) % 4) as u8;
        let offset_mid = ((m / 32) % 4) as u8;
        let offset_max = ((m / 128) % 4) as u8;

        let pict_type = kind * 9 + min_number;
        let base = pict_type * 4;
        let h_min = base + offset_min;
        let h_mid = base + 4 + offset_mid;
        let h_max = base + 8 + offset_max;

        Ok(Meld::Chii {
            combination: (Hai::new(h_min), Hai::new(h_mid), Hai::new(h_max)),
            called_position,
        })
    } else if ((m / 8) % 2 == 1) || ((m / 16) % 2 == 1) {
        let pattern = m / 512;
        let unused_hai_offset = ((m / 32) % 4) as u8;
        let called_index = (pattern % 3) as u8;

        let pict_type = (pattern / 3) as u8;
        let base = pict_type * 4;
        let slot0 = pon_slot(base, unused_hai_offset, 0);
        let slot1 = pon_slot(base, unused_hai_offset, 1);
        let slot2 = pon_slot(base, unused_hai_offset, 2);
        let slot3 = pon_slot(base, unused_hai_offset, 3);
        let combination = (Hai::new(slot0), Hai::new(slot1), Hai::new(slot2));
        let unused_hai = Hai::new(slot3);
        let called_hai = Hai::new(pon_slot(base, unused_hai_offset, called_index));

        if (m / 16) % 2 == 1 {
            Ok(Meld::Kakan { dir, combination, called: called_hai, added: unused_hai })
        } else {
            Ok(Meld::Pon { dir, combination, called: called_hai, unused: unused_hai })
        }
    } else if (m / 32) % 2 == 1 {
        Err(MjlogError::UnexpectedPeiNuki)
    } else {
        let hai = Hai::new((m / 256) as u8);
        if dir_code == 0 {
            Ok(Meld::Ankan { hai })
        } else {
            Ok(Meld::Daiminkan { dir, hai })
        }
    }
}

/// The calls that the encoder accepts: exactly the well-formed images of
/// the decoder. A chii must be three consecutive copies of one suit; a
/// pon or kakan must lay the four copies of one rank out as the decoder
/// does, with the called copy among the three used ones; a daiminkan
/// cannot come from the own seat.
pub open spec fn spec_meld_wf(m: Meld) -> bool {
    match m {
        Meld::Chii { combination, called_position } => {
            let (h0, h1, h2) = combination;
            &&& called_position <= 2
            &&& h0.0 / 4 / 9 <= 2
            &&& (h0.0 / 4) % 9 <= 6
            &&& h1.0 / 4 == h0.0 / 4 + 1
            &&& h2.0 / 4 == h0.0 / 4 + 2
        }
        Meld::Pon { dir, combination, called, unused } => {
            let (h0, h1, h2) = combination;
            let base = (unused.0 / 4) * 4;
            let off = unused.0 % 4;
            &&& unused.0 / 4 <= 33
            &&& h0.0 == spec_pon_slot(base as int, off as int, 0)
            &&& h1.0 == spec_pon_slot(base as int, off as int, 1)
            &&& h2.0 == spec_pon_slot(base as int, off as int, 2)
            &&& (called == h0 || called == h1 || called == h2)
        }
        Meld::Kakan { dir, combination, called, added } => {
            let (h0, h1, h2) = combination;
            let base = (added.0 / 4) * 4;
            let off = added.0 % 4;
            &&& added.0 / 4 <= 33
            &&& h0.0 == spec_pon_slot(base as int, off as int, 0)
            &&& h1.0 == spec_pon_slot(base as int, off as int, 1)
            &&& h2.0 == spec_pon_slot(base as int, off as int, 2)
            &&& (called == h0 || called == h1 || called == h2)
        }
        Meld::Daiminkan { dir, hai } => dir != Direction::SelfSeat,
        Meld::Ankan { hai } => true,
    }
}

/// The packed descriptor of a well-formed call. A chii carries no source
/// direction of its own, so its two direction bits are written as the
/// left seat, where every chii comes from.
pub open spec fn spec_encoded_meld(m: Meld) -> int {
    match m {
        Meld::Chii { combination, called_position } => {
            let (h0, h1, h2) = combination;
            let pict = h0.0 / 4;
            let pattern = ((pict / 9) * 7 + pict % 9) * 3 + called_position;
            pattern * 1024 + (h2.0 % 4) * 128 + (h1.0 % 4) * 32 + (h0.0 % 4) * 8 + 4 + 3
        }
        Meld::Pon { dir, combination, called, unused } => {
            let (h0, h1, h2) = combination;
            let ci: int = if called == h0 {
                0
            } else if called == h1 {
                1
            } else {
                2
            };
            ((unused.0 / 4) * 3 + ci) * 512 + (unused.0 % 4) * 32 + 8 + spec_dir_code(dir)
        }
        Meld::Kakan { dir, combination, called, added } => {
            let (h0, h1, h2) = combination;
            let ci: int = if called == h0 {
                0
            } else if called == h1 {
                1
            } else {
                2
            };
            ((added.0 / 4) * 3 + ci) * 512 + (added.0 % 4) * 32 + 16 + spec_dir_code(dir)
        }
        Meld::Daiminkan { dir, hai } => hai.0 * 256 + spec_dir_code(dir),
        Meld::Ankan { hai } => hai.0 * 256,
    }
}

fn dir_code(d: Direction) -> (r: u16)
    ensures
        r == spec_dir_code(d),
{
    match d {
        Direction::SelfSeat => 0,
        Direction::Shimocha => 1,
        Direction::Toimen => 2,
        Direction::Kamicha => 3,
    }
}

/// Encodes a call back into its packed descriptor; a call that does not
/// fit the claimed pattern is a caller-contract violation.
pub fn conv_meld_to_u16(m: &Meld) -> (r: MjlogResult<u16>)
    ensures
        spec_meld_wf(*m) ==> (r matches Ok(v) && v == spec_encoded_meld(*m)),
        !spec_meld_wf(*m) ==> r == Err::<u16, MjlogError>(MjlogError::DomainMismatch),
{
    match m {
        Meld::Chii { combination, called_position } => {
            let (h0, h1, h2) = *combination;
            let p0 = h0.0 / 4;
            if !(*called_position <= 2 && p0 / 9 <= 2 && p0 % 9 <= 6 && h1.0 / 4 == p0 + 1 && h2.0
                / 4 == p0 + 2) {
                return Err(MjlogError::DomainMismatch);
            }
            let pattern = ((p0 / 9) * 7 + p0 % 9) * 3 + *called_position;
            Ok(
                (pattern as u16) * 1024 + ((h2.0 % 4) as u16) * 128 + ((h1.0 % 4) as u16) * 32 + ((
                h0.0 % 4) as u16) * 8 + 4 + 3,
            )
        }
        Meld::Pon { dir, combination, called, unused } => {
            let (h0, h1, h2) = *combination;
            let pict = unused.0 / 4;
            if pict > 33 {
                return Err(MjlogError::DomainMismatch);
            }
            let base = pict * 4;
            let off = unused.0 % 4;
            if !(h0.0 == pon_slot(base, off, 0) && h1.0 == pon_slot(base, off, 1) && h2.0
                == pon_slot(base, off, 2)) {
                return Err(MjlogError::DomainMismatch);
            }
            let ci: u16 = if called.0 == h0.0 {
                0
            } else if called.0 == h1.0 {
                1
            } else if called.0 == h2.0 {
                2
            } else {
                return Err(MjlogError::DomainMismatch);
            };
            Ok(((pict as u16) * 3 + ci) * 512 + (off as u16) * 32 + 8 + dir_code(*dir))
        }
        Meld::Kakan { dir, combination, called, added } => {
            let (h0, h1, h2) = *combination;
            let pict = added.0 / 4;
            if pict > 33 {
                return Err(MjlogError::DomainMismatch);
            }
            let base = pict * 4;
            let off = added.0 % 4;
            if !(h0.0 == pon_slot(base, off, 0) && h1.0 == pon_slot(base, off, 1) && h2.0
                == pon_slot(base, off, 2)) {
                return Err(MjlogError::DomainMismatch);
            }
            let ci: u16 = if called.0 == h0.0 {
                0
            } else if called.0 == h1.0 {
                1
            } else if called.0 == h2.0 {
                2
            } else {
                return Err(MjlogError::DomainMismatch);
            };
            Ok(((pict as u16) * 3 + ci) * 512 + (off as u16) * 32 + 16 + dir_code(*dir))
        }
        Meld::Daiminkan { dir, hai } => {
            match dir {
                Direction::SelfSeat => Err(MjlogError::DomainMismatch),
                _ => Ok((hai.0 as u16) * 256 + dir_code(*dir)),
            }
        }
        Meld::Ankan { hai } => Ok((hai.0 as u16) * 256),
    }
}

pub proof fn lemma_divmod(k: int, q: int, r: int)
    requires
        k >= 1,
        q >= 0,
        0 <= r < k,
    ensures
        (q * k + r) / k == q,
        (q * k + r) % k == r,
{
    assert((q * k + r) / k == q && (q * k + r) % k == r) by (nonlinear_arith)
        requires
            k >= 1,
            q >= 0,
            0 <= r < k,
    ;
}

/// Decoding a valid packed call descriptor and encoding the call again
/// gives a descriptor that decodes to the same call: the two codecs are
/// mutually inverse on every supported field whose call is well-formed.
pub proof fn lemma_meld_field_round_trip(m: u16)
    requires
        spec_meld_supported(m),
        spec_meld_wf(spec_decoded_meld(m)),
    ensures
        ({
            let meld = spec_decoded_meld(m);
            let m2 = spec_encoded_meld(meld);
            &&& 0 <= m2 < 0x10000
            &&& spec_meld_supported(m2 as u16)
            &&& spec_decoded_meld(m2 as u16) == meld
        }),
{
    let meld = spec_decoded_meld(m);
    if (m / 4) % 2 == 1 {
        let pattern = (m / 1024) as int;
        let cp = pattern % 3;
        let minn = (pattern / 3) % 7;
        let kind = (pattern / 3) / 7;
        let pict = kind * 9 + minn;
        let base = pict * 4;
        let omin = ((m / 8) % 4) as int;
        let omid = ((m / 32) % 4) as int;
        let omax = ((m / 128) % 4) as int;
        let h0 = Hai((base + omin) as u8);
        let h1 = Hai((base + 4 + omid) as u8);
        let h2 = Hai((base + 8 + omax) as u8);
        assert(meld == (Meld::Chii {
            combination: (h0, h1, h2),
            called_position: cp as u8,
        }));
        assert(pict <= 3 * 9 + 6) by {
            assert(kind <= 3 && minn <= 6);
        }
        lemma_divmod(4, pict, omin);
        lemma_divmod(4, pict + 1, omid);
        lemma_divmod(4, pict + 2, omax);
        assert(h0.0 / 4 == pict && h0.0 % 4 == omin);
        assert(h1.0 / 4 == pict + 1 && h1.0 % 4 == omid);
        assert(h2.0 / 4 == pict + 2 && h2.0 % 4 == omax);
        lemma_divmod(9, kind, minn);
        assert(pict / 9 == kind && pict % 9 == minn);
        lemma_divmod(7, kind, minn);
        assert(kind * 7 + minn == pattern / 3);
        let m2 = spec_encoded_meld(meld);
        assert(m2 == pattern * 1024 + omax * 128 + omid * 32 + omin * 8 + 4 + 3);
        let v = m2 as u16;
        let p16 = pattern as u16;
        let a = omin as u16;
        let b = omid as u16;
        let c = omax as u16;
        assert(v % 4 == 3 && (v / 4) % 2 == 1 && v / 1024 == p16 && (v / 8) % 4 == a && (v / 32)
            % 4 == b && (v / 128) % 4 == c) by (bit_vector)
            requires
                v == p16 * 1024 + c * 128 + b * 32 + a * 8 + 4 + 3,
                p16 < 64,
                a < 4,
                b < 4,
                c < 4,
        ;
        lemma_divmod(3, kind * 7 + minn, cp);
        assert(spec_decoded_meld(v) == meld);
    } else if (m / 8) % 2 == 1 || (m / 16) % 2 == 1 {
        let pattern = (m / 512) as int;
        let off = ((m / 32) % 4) as int;
        let ci = pattern % 3;
        let pict = pattern / 3;
        let base = pict * 4;
        let dir = spec_dir_of((m % 4) as int);
        let h0 = Hai(spec_pon_slot(base, off, 0) as u8);
        let h1 = Hai(spec_pon_slot(base, off, 1) as u8);
        let h2 = Hai(spec_pon_slot(base, off, 2) as u8);
        let last = Hai(spec_pon_slot(base, off, 3) as u8);
        let called = Hai(spec_pon_slot(base, off, ci) as u8);
        assert(pict <= 33) by {
            assert(last.0 == base + off);
            lemma_divmod(4, pict, off);
        }
        assert(last.0 / 4 == pict && last.0 % 4 == off) by {
            assert(last.0 == base + off);
            lemma_divmod(4, pict, off);
        }
        // the four copy slots are pairwise distinct
        assert(h0.0 != h1.0 && h0.0 != h2.0 && h1.0 != h2.0 && last.0 != h0.0 && last.0 != h1.0
            && last.0 != h2.0);
        let eci: int = if called == h0 {
            0
        } else if called == h1 {
            1
        } else {
            2
        };
        assert(eci == ci);
        lemma_divmod(3, pict, ci);
        let m2 = spec_encoded_meld(meld);
        let v = m2 as u16;
        let q = pattern as u16;
        let o = off as u16;
        let d = spec_dir_code(dir) as u16;
        assert(spec_dir_code(dir) == m % 4);
        if (m / 16) % 2 == 1 {
            assert(meld == (Meld::Kakan { dir, combination: (h0, h1, h2), called, added: last }));
            assert(m2 == pattern * 512 + off * 32 + 16 + spec_dir_code(dir));
            assert(v % 4 == d && (v / 4) % 2 == 0 && (v / 8) % 2 == 0 && (v / 16) % 2 == 1 && v
                / 512 == q && (v / 32) % 4 == o) by (bit_vector)
                requires
                    v == q * 512 + o * 32 + 16 + d,
                    q < 128,
                    o < 4,
                    d < 4,
            ;
            assert(spec_decoded_meld(v) == meld);
        } else {
            assert(meld == (Meld::Pon { dir, combination: (h0, h1, h2), called, unused: last }));
            assert(m2 == pattern * 512 + off * 32 + 8 + spec_dir_code(dir));
            assert(v % 4 == d && (v / 4) % 2 == 0 && (v / 8) % 2 == 1 && v / 512 == q && (v / 32)
                % 4 == o) by (bit_vector)
                requires
                    v == q * 512 + o * 32 + 8 + d,
                    q < 128,
                    o < 4,
                    d < 4,
            ;
            assert(spec_decoded_meld(v) == meld);
        }
    } else {
        let hai = Hai((m / 256) as u8);
        let dir = spec_dir_of((m % 4) as int);
        let m2 = spec_encoded_meld(meld);
        let v = m2 as u16;
        let h = hai.0 as u16;
        if m % 4 == 0 {
            assert(meld == (Meld::Ankan { hai }));
            assert(m2 == hai.0 * 256);
            assert(v % 4 == 0 && (v / 4) % 2 == 0 && (v / 8) % 2 == 0 && (v / 16) % 2 == 0 && (v
                / 32) % 2 == 0 && v / 256 == h) by (bit_vector)
                requires
                    v == h * 256,
                    h < 256,
            ;
            assert(spec_decoded_meld(v) == meld);
        } else {
            let d = spec_dir_code(dir) as u16;
            assert(spec_dir_code(dir) == m % 4);
            assert(meld == (Meld::Daiminkan { dir, hai }));
            assert(m2 == hai.0 * 256 + spec_dir_code(dir));
            assert(v % 4 == d && (v / 4) % 2 == 0 && (v / 8) % 2 == 0 && (v / 16) % 2 == 0 && (v
                / 32) % 2 == 0 && v / 256 == h) by (bit_vector)
                requires
                    v == h * 256 + d,
                    h < 256,
                    0 < d < 4,
            ;
            assert(spec_decoded_meld(v) == meld);
        }
    }
}

/// One tagged record of the document: a tag name with its attributes, in
/// document order, values already unescaped.
#[derive(Debug, PartialEq, Clone)]
pub struct RawTag {
    pub name: String,
    pub attrs: Vec<(String, String)>,
}

/// One tokenized event of the document, as the document layer hands it
/// over; the end of input is the end of the event sequence.
#[derive(Debug, PartialEq, Clone)]
pub enum RawEvent {
    TagEmpty(RawTag),
    TagStart(RawTag),
    TagEnd(String),
    Decl,
    DocType,
    Comment,
    PI,
    CData,
    Text,
}

/// What percent-decoding yields; the result depends on the characters
/// alone.
pub uninterp spec fn percent_decoded(s: Seq<char>) -> Seq<char>;

/// Relies on percent_encoding::percent_decode_str with decode_utf8_lossy:
/// every `%` followed by two hex digits becomes the encoded byte, invalid
/// UTF-8 becomes replacement characters, and a text without `%` comes
/// back unchanged.
#[verifier::external_body]
fn decode_percent_encoding(s: &str) -> (r: String)
    ensures
        r@ == percent_decoded(s@),
        !s@.contains('%') ==> r@ == s@,
{
    percent_encoding::percent_decode_str(s).decode_utf8_lossy().to_string()
}

/// The value of the first attribute with the given name, if any.
pub open spec fn spec_attr_lookup(attrs: Seq<(String, String)>, name: Seq<char>) -> Option<String>
    decreases attrs.len(),
{
    if attrs.len() == 0 {
        None
    } else if attrs[0].0@ == name {
        Some(attrs[0].1)
    } else {
        spec_attr_lookup(attrs.drop_first(), name)
    }
}

pub open spec fn attr_of(e: RawTag, name: Seq<char>) -> Option<String> {
    spec_attr_lookup(e.attrs@, name)
}

fn try_get_attribute_str(e: &RawTag, attr_name: &str) -> (r: Option<String>)
    ensures
        r == attr_of(*e, attr_name@),
{
    let key = attr_name.to_owned();
    let mut i: usize = 0;
    proof {
        assert(e.attrs@.skip(0) =~= e.attrs@);
    }
    loop
        invariant
            i <= e.attrs@.len(),
            key@ == attr_name@,
            attr_of(*e, attr_name@) == spec_attr_lookup(
                e.attrs@.skip(i as int),
                attr_name@,
            ),
        decreases e.attrs@.len() - i,
    {
        if i >= e.attrs.len() {
            return None;
        }
        proof {
            assert(e.attrs@.skip(i as int)[0] == e.attrs@[i as int]);
        }
        if e.attrs[i].0.eq(&key) {
            return Some(e.attrs[i].1.clone());
        }
        proof {
            assert(e.attrs@.skip(i as int).drop_first() =~= e.attrs@.skip(i + 1));
        }
        i = i + 1;
    }
}

fn get_attribute_str(e: &RawTag, attr_name: &str) -> (r: MjlogResult<String>)
    ensures
        (attr_of(*e, attr_name@) matches Some(s) ==> r == Ok::<String, MjlogError>(s)),
        (attr_of(*e, attr_name@) is None ==> (r matches Err(er) && er matches
            MjlogError::AttributeNotFound(n) && n@ == attr_name@)),
{
    match try_get_attribute_str(e, attr_name) {
        Some(s) => Ok(s),
        None => Err(MjlogError::AttributeNotFound(attr_name.to_owned())),
    }
}

/// The numeric reading of an attribute: nothing when the attribute is
/// missing or is not a whole unsigned number at most `max`.
pub open spec fn spec_attr_unsigned(e: RawTag, name: Seq<char>, max: int) -> Option<int> {
    match attr_of(e, name) {
        None => None,
        Some(s) => crate::text::spec_parse_unsigned(s@, max),
    }
}

fn try_get_attr_unsigned(e: &RawTag, attr_name: &str, max: u32) -> (r: MjlogResult<Option<u32>>)
    ensures
        (attr_of(*e, attr_name@) is None ==> r == Ok::<Option<u32>, MjlogError>(None)),
        (attr_of(*e, attr_name@) matches Some(s) ==> match crate::text::spec_parse_unsigned(
            s@,
            max as int,
        ) {
            Some(v) => r matches Ok(o) && o matches Some(x) && x == v,
            None => r matches Err(er) && er matches MjlogError::ParseError(t) && t == s,
        }),
{
    match try_get_attribute_str(e, attr_name) {
        None => Ok(None),
        Some(s) => match crate::text::parse_unsigned(s.as_str(), max) {
            Some(v) => Ok(Some(v)),
            None => Err(MjlogError::ParseError(s)),
        },
    }
}

fn get_attr_unsigned(e: &RawTag, attr_name: &str, max: u32) -> (r: MjlogResult<u32>)
    ensures
        (attr_of(*e, attr_name@) is None ==> (r matches Err(er) && er matches
            MjlogError::AttributeNotFound(n) && n@ == attr_name@)),
        (attr_of(*e, attr_name@) matches Some(s) ==> match crate::text::spec_parse_unsigned(
            s@,
            max as int,
        ) {
            Some(v) => r matches Ok(x) && x == v,
            None => r matches Err(er) && er matches MjlogError::ParseError(t) && t == s,
        }),
{
    match try_get_attribute_str(e, attr_name) {
        None => Err(MjlogError::AttributeNotFound(attr_name.to_owned())),
        Some(s) => match crate::text::parse_unsigned(s.as_str(), max) {
            Some(v) => Ok(v),
            None => Err(MjlogError::ParseError(s)),
        },
    }
}

/// The fields of a comma-separated attribute of unsigned numbers, when
/// every field is one.
pub open spec fn spec_csv_unsigned(s: Seq<char>, max: int) -> Option<Seq<int>> {
    let fs = crate::text::spec_csv_fields(s, 0);
    if forall|k: int|
        0 <= k < fs.len() ==> crate::text::spec_parse_unsigned(#[trigger] fs[k], max) is Some {
        Some(Seq::new(fs.len(), |k: int| crate::text::spec_parse_unsigned(fs[k], max)->Some_0))
    } else {
        None
    }
}

/// The fields of a comma-separated attribute of signed numbers, when
/// every field is one.
pub open spec fn spec_csv_i32(s: Seq<char>) -> Option<Seq<int>> {
    let fs = crate::text::spec_csv_fields(s, 0);
    if forall|k: int| 0 <= k < fs.len() ==> crate::text::spec_parse_i32(#[trigger] fs[k]) is Some {
        Some(Seq::new(fs.len(), |k: int| crate::text::spec_parse_i32(fs[k])->Some_0))
    } else {
        None
    }
}

fn parse_csv_unsigned(s: &str, max: u32) -> (r: Option<Vec<u32>>)
    ensures
        (r matches Some(v) ==> spec_csv_unsigned(s@, max as int) matches Some(sv) && sv
            == v@.map_values(|x: u32| x as int) && (forall|k: int|
            0 <= k < v@.len() ==> #[trigger] v@[k] <= max)),
        (r is None ==> spec_csv_unsigned(s@, max as int) is None),
{
    let fields = crate::text::csv_fields(s);
    let ghost fs = crate::text::spec_csv_fields(s@, 0);
    let mut out: Vec<u32> = Vec::new();
    let mut i: usize = 0;
    while i < fields.len()
        invariant
            i <= fields@.len(),
            fs == crate::text::spec_csv_fields(s@, 0),
            fields@.map_values(|f: Vec<char>| f@) == fs,
            out@.len() == i,
            forall|k: int| 0 <= k < i ==> #[trigger] out@[k] <= max,
            forall|k: int|
                0 <= k < i ==> crate::text::spec_parse_unsigned(#[trigger] fs[k], max as int)
                    == Some(out@[k] as int),
        decreases fields@.len() - i,
    {
        proof {
            assert(fs[i as int] == fields@[i as int]@);
            assert(fields@[i as int]@.subrange(0, fields@[i as int]@.len() as int)
                =~= fields@[i as int]@);
        }
        match crate::text::parse_unsigned_chars(&fields[i], 0, max) {
            Some(v) => {
                out.push(v);
            }
            None => {
                proof {
                    assert(crate::text::spec_parse_unsigned(fs[i as int], max as int) is None);
                    assert(spec_csv_unsigned(s@, max as int) is None);
                }
                return None;
            }
        }
        i = i + 1;
    }
    proof {
        assert(out@.map_values(|x: u32| x as int) =~= Seq::new(
            fs.len(),
            |k: int| crate::text::spec_parse_unsigned(fs[k], max as int)->Some_0,
        ));
    }
    Some(out)
}

fn parse_csv_i32(s: &str) -> (r: Option<Vec<i32>>)
    ensures
        (r matches Some(v) ==> spec_csv_i32(s@) matches Some(sv) && sv == v@.map_values(
            |x: i32| x as int,
        )),
        (r is None ==> spec_csv_i32(s@) is None),
{
    let fields = crate::text::csv_fields(s);
    let ghost fs = crate::text::spec_csv_fields(s@, 0);
    let mut out: Vec<i32> = Vec::new();
    let mut i: usize = 0;
    while i < fields.len()
        invariant
            i <= fields@.len(),
            fs == crate::text::spec_csv_fields(s@, 0),
            fields@.map_values(|f: Vec<char>| f@) == fs,
            out@.len() == i,
            forall|k: int|
                0 <= k < i ==> crate::text::spec_parse_i32(#[trigger] fs[k]) == Some(
                    out@[k] as int,
                ),
        decreases fields@.len() - i,
    {
        proof {
            assert(fs[i as int] == fields@[i as int]@);
        }
        match crate::text::parse_i32_chars(&fields[i]) {
            Some(v) => {
                out.push(v);
            }
            None => {
                proof {
                    assert(crate::text::spec_parse_i32(fs[i as int]) is None);
                    assert(spec_csv_i32(s@) is None);
                }
                return None;
            }
        }
        i = i + 1;
    }
    proof {
        assert(out@.map_values(|x: i32| x as int) =~= Seq::new(
            fs.len(),
            |k: int| crate::text::spec_parse_i32(fs[k])->Some_0,
        ));
    }
    Some(out)
}

/// The raw fields of a comma-separated attribute.
fn split_csv_strings(s: &str) -> (r: Vec<String>)
    ensures
        r@.map_values(|x: String| x@) == crate::text::spec_csv_fields(s@, 0),
{
    let fields = crate::text::csv_fields(s);
    let ghost fs = crate::text::spec_csv_fields(s@, 0);
    let mut out: Vec<String> = Vec::new();
    let mut i: usize = 0;
    while i < fields.len()
        invariant
            i <= fields@.len(),
            fs == crate::text::spec_csv_fields(s@, 0),
            fields@.map_values(|f: Vec<char>| f@) == fs,
            out@.len() == i,
            forall|k: int| 0 <= k < i ==> #[trigger] out@[k]@ == fs[k],
        decreases fields@.len() - i,
    {
        proof {
            assert(fs[i as int] == fields@[i as int]@);
        }
        let t = crate::text::chars_to_string(&fields[i]);
        out.push(t);
        i = i + 1;
    }
    proof {
        assert(out@.map_values(|x: String| x@) =~= fs);
    }
    out
}

/// The attribute's comma-separated unsigned fields, if it is present and
/// every field is a number at most `max`.
pub open spec fn spec_attr_csv_unsigned(e: RawTag, name: Seq<char>, max: int) -> Option<Seq<int>> {
    match attr_of(e, name) {
        None => None,
        Some(s) => spec_csv_unsigned(s@, max),
    }
}

/// As above, but a missing attribute reads as an empty list.
pub open spec fn spec_attr_csv_unsigned_or_empty(e: RawTag, name: Seq<char>, max: int) -> Option<
    Seq<int>,
> {
    match attr_of(e, name) {
        None => Some(Seq::empty()),
        Some(s) => spec_csv_unsigned(s@, max),
    }
}

/// The attribute's comma-separated signed fields, if present and numeric.
pub open spec fn spec_attr_csv_i32(e: RawTag, name: Seq<char>) -> Option<Seq<int>> {
    match attr_of(e, name) {
        None => None,
        Some(s) => spec_csv_i32(s@),
    }
}

/// The entries at even positions.
pub open spec fn spec_evens<A>(s: Seq<A>) -> Seq<A> {
    Seq::new((s.len() + 1) / 2, |k: int| s[2 * k])
}

/// The entries at odd positions.
pub open spec fn spec_odds<A>(s: Seq<A>) -> Seq<A> {
    Seq::new(s.len() / 2, |k: int| s[2 * k + 1])
}

fn get_attr_csv_unsigned(e: &RawTag, attr_name: &str, max: u32) -> (r: MjlogResult<Vec<u32>>)
    ensures
        (r matches Ok(v) ==> spec_attr_csv_unsigned(*e, attr_name@, max as int) == Some(
            v@.map_values(|x: u32| x as int),
        ) && (forall|k: int| 0 <= k < v@.len() ==> #[trigger] v@[k] <= max)),
        (r is Err <==> spec_attr_csv_unsigned(*e, attr_name@, max as int) is None),
{
    match try_get_attribute_str(e, attr_name) {
        None => Err(MjlogError::AttributeNotFound(attr_name.to_owned())),
        Some(s) => match parse_csv_unsigned(s.as_str(), max) {
            Some(v) => Ok(v),
            None => Err(MjlogError::ParseError(s)),
        },
    }
}

fn get_attr_csv_unsigned_or_empty(e: &RawTag, attr_name: &str, max: u32) -> (r: MjlogResult<
    Vec<u32>,
>)
    ensures
        (r matches Ok(v) ==> spec_attr_csv_unsigned_or_empty(*e, attr_name@, max as int) == Some(
            v@.map_values(|x: u32| x as int),
        ) && (forall|k: int| 0 <= k < v@.len() ==> #[trigger] v@[k] <= max)),
        (r is Err <==> spec_attr_csv_unsigned_or_empty(*e, attr_name@, max as int) is None),
{
    match try_get_attribute_str(e, attr_name) {
        None => {
            let v: Vec<u32> = Vec::new();
            proof {
                assert(v@.map_values(|x: u32| x as int) =~= Seq::<int>::empty());
            }
            Ok(v)
        }
        Some(s) => match parse_csv_unsigned(s.as_str(), max) {
            Some(v) => Ok(v),
            None => Err(MjlogError::ParseError(s)),
        },
    }
}

fn get_attr_csv_i32(e: &RawTag, attr_name: &str) -> (r: MjlogResult<Vec<i32>>)
    ensures
        (r matches Ok(v) ==> spec_attr_csv_i32(*e, attr_name@) == Some(
            v@.map_values(|x: i32| x as int),
        )),
        (r is Err <==> spec_attr_csv_i32(*e, attr_name@) is None),
{
    match try_get_attribute_str(e, attr_name) {
        None => Err(MjlogError::AttributeNotFound(attr_name.to_owned())),
        Some(s) => match parse_csv_i32(s.as_str()) {
            Some(v) => Ok(v),
            None => Err(MjlogError::ParseError(s)),
        },
    }
}

/// Splits an even/odd interleaving into its two sequences.
fn partition_even_odd_i32(v: &Vec<i32>) -> (r: (Vec<i32>, Vec<i32>))
    ensures
        r.0@ == spec_evens(v@),
        r.1@ == spec_odds(v@),
{
    let mut evens: Vec<i32> = Vec::new();
    let mut odds: Vec<i32> = Vec::new();
    let mut i: usize = 0;
    while i < v.len()
        invariant
            i <= v@.len(),
            i % 2 == 0 ==> evens@.len() == i / 2 && odds@.len() == i / 2,
            i % 2 == 1 ==> evens@.len() == i / 2 + 1 && odds@.len() == i / 2,
            forall|k: int| 0 <= k < evens@.len() ==> evens@[k] == v@[2 * k],
            forall|k: int| 0 <= k < odds@.len() ==> odds@[k] == v@[2 * k + 1],
        decreases v@.len() - i,
    {
        if i % 2 == 0 {
            evens.push(v[i]);
        } else {
            odds.push(v[i]);
        }
        i = i + 1;
    }
    proof {
        assert(evens@ =~= spec_evens(v@));
        assert(odds@ =~= spec_odds(v@));
    }
    (evens, odds)
}

/// Turns numeric codes into tile ordinals.
fn to_hai_vec(v: &Vec<u32>) -> (r: Vec<Hai>)
    requires
        forall|k: int| 0 <= k < v@.len() ==> #[trigger] v@[k] <= 255,
    ensures
        r@ == v@.map_values(|x: u32| Hai(x as u8)),
{
    let mut out: Vec<Hai> = Vec::new();
    let mut i: usize = 0;
    while i < v.len()
        invariant
            i <= v@.len(),
            forall|k: int| 0 <= k < v@.len() ==> #[trigger] v@[k] <= 255,
            out@.len() == i,
            forall|k: int| 0 <= k < i ==> #[trigger] out@[k] == Hai(v@[k] as u8),
        decreases v@.len() - i,
    {
        out.push(Hai(v[i] as u8));
        i = i + 1;
    }
    proof {
        assert(out@ =~= v@.map_values(|x: u32| Hai(x as u8)));
    }
    out
}

/// The seed record.
pub fn conv_shuffle(e: &RawTag) -> (r: MjlogResult<Action>)
    ensures
        (attr_of(*e, "seed"@) matches Some(s) ==> r == Ok::<Action, MjlogError>(
            Action::SHUFFLE(ActionSHUFFLE { seed: s }),
        )),
        (attr_of(*e, "seed"@) is None ==> r is Err),
{
    let seed = get_attribute_str(e, "seed")?;
    Ok(Action::SHUFFLE(ActionSHUFFLE { seed }))
}

/// The room grade packed into the table-type bits.
pub open spec fn spec_room_of_bits(t: int) -> TenhouRoom {
    let idx = ((t / 32) % 2) * 2 + (t / 128) % 2;
    if idx == 0 {
        TenhouRoom::Ippan
    } else if idx == 1 {
        TenhouRoom::Joukyu
    } else if idx == 2 {
        TenhouRoom::Tokujou
    } else {
        TenhouRoom::Houou
    }
}

/// The table settings packed into the table-type bits.
pub open spec fn spec_go_settings(t: int) -> GameSettings {
    GameSettings {
        vs_human: t % 2 == 1,
        no_red: (t / 2) % 2 == 1,
        no_kuitan: (t / 4) % 2 == 1,
        hanchan: (t / 8) % 2 == 1,
        sanma: (t / 16) % 2 == 1,
        soku: (t / 64) % 2 == 1,
        room: spec_room_of_bits(t),
    }
}

/// The table-open record that a tag denotes, if well-formed.
pub open spec fn spec_go(e: RawTag) -> Option<ActionGO> {
    match spec_attr_unsigned(e, "type"@, 0xffff_ffff) {
        None => None,
        Some(t) => match spec_attr_unsigned(e, "lobby"@, 0xffff_ffff) {
            None => None,
            Some(lobby) => Some(ActionGO { settings: spec_go_settings(t), lobby: lobby as u32 }),
        },
    }
}

/// The table-open record: ruleset flags and the lobby.
pub fn conv_go(e: &RawTag) -> (r: MjlogResult<Action>)
    ensures
        (spec_go(*e) matches Some(a) ==> r == Ok::<Action, MjlogError>(Action::GO(a))),
        (spec_go(*e) is None ==> r is Err),
{
    let t = get_attr_unsigned(e, "type", 0xffff_ffff)?;
    let lobby = get_attr_unsigned(e, "lobby", 0xffff_ffff)?;
    let room_idx = ((t / 32) % 2) * 2 + (t / 128) % 2;
    let room = if room_idx == 0 {
        TenhouRoom::Ippan
    } else if room_idx == 1 {
        TenhouRoom::Joukyu
    } else if room_idx == 2 {
        TenhouRoom::Tokujou
    } else {
        TenhouRoom::Houou
    };
    let settings = GameSettings {
        vs_human: t % 2 == 1,
        no_red: (t / 2) % 2 == 1,
        no_kuitan: (t / 4) % 2 == 1,
        hanchan: (t / 8) % 2 == 1,
        sanma: (t / 16) % 2 == 1,
        soku: (t / 64) % 2 == 1,
        room,
    };
    Ok(Action::GO(ActionGO { settings, lobby }))
}

/// The seat-left record that a tag denotes, if well-formed.
pub open spec fn spec_bye(e: RawTag) -> Option<ActionBYE> {
    match spec_attr_unsigned(e, "who"@, 255) {
        None => None,
        Some(w) => Some(ActionBYE { who: Player(w as u8) }),
    }
}

pub fn conv_bye(e: &RawTag) -> (r: MjlogResult<Action>)
    ensures
        (spec_bye(*e) matches Some(a) ==> r == Ok::<Action, MjlogError>(Action::BYE(a))),
        (spec_bye(*e) is None ==> r is Err),
{
    let who = get_attr_unsigned(e, "who", 255)?;
    Ok(Action::BYE(ActionBYE { who: Player(who as u8) }))
}

/// The match-start record that a tag denotes, if well-formed.
pub open spec fn spec_taikyoku(e: RawTag) -> Option<ActionTAIKYOKU> {
    match spec_attr_unsigned(e, "oya"@, 255) {
        None => None,
        Some(w) => Some(ActionTAIKYOKU { oya: Player(w as u8) }),
    }
}

pub fn conv_taikyoku(e: &RawTag) -> (r: MjlogResult<Action>)
    ensures
        (spec_taikyoku(*e) matches Some(a) ==> r == Ok::<Action, MjlogError>(Action::TAIKYOKU(a))),
        (spec_taikyoku(*e) is None ==> r is Err),
{
    let oya = get_attr_unsigned(e, "oya", 255)?;
    Ok(Action::TAIKYOKU(ActionTAIKYOKU { oya: Player(oya as u8) }))
}

/// The new-dora record that a tag denotes, if well-formed.
pub open spec fn spec_dora(e: RawTag) -> Option<ActionDORA> {
    match spec_attr_unsigned(e, "hai"@, 255) {
        None => None,
        Some(h) => Some(ActionDORA { hai: Hai(h as u8) }),
    }
}

pub fn conv_dora(e: &RawTag) -> (r: MjlogResult<Action>)
    ensures
        (spec_dora(*e) matches Some(a) ==> r == Ok::<Action, MjlogError>(Action::DORA(a))),
        (spec_dora(*e) is None ==> r is Err),
{
    let hai = get_attr_unsigned(e, "hai", 255)?;
    Ok(Action::DORA(ActionDORA { hai: Hai(hai as u8) }))
}

/// Whether a riichi tag is well-formed: step one is the declaration,
/// step two carries the settled scores.
pub open spec fn spec_reach_ok(e: RawTag) -> bool {
    match spec_attr_unsigned(e, "step"@, 255) {
        None => false,
        Some(step) => match spec_attr_unsigned(e, "who"@, 255) {
            None => false,
            Some(w) => step == 1 || (step == 2 && spec_attr_csv_i32(e, "ten"@) is Some),
        },
    }
}

pub fn conv_reach(e: &RawTag) -> (r: MjlogResult<Action>)
    ensures
        (r is Ok <==> spec_reach_ok(*e)),
        (spec_reach_ok(*e) ==> ({
            let step = spec_attr_unsigned(*e, "step"@, 255)->Some_0;
            let w = spec_attr_unsigned(*e, "who"@, 255)->Some_0;
            if step == 1 {
                r == Ok::<Action, MjlogError>(Action::REACH1(ActionREACH1 { who: Player(w as u8) }))
            } else {
                r matches Ok(a) && a matches Action::REACH2(x) && x.who == Player(w as u8)
                    && x.ten@.map_values(|v: i32| v as int) == spec_attr_csv_i32(
                    *e,
                    "ten"@,
                )->Some_0
            }
        })),
{
    let step = get_attr_unsigned(e, "step", 255)?;
    let who = get_attr_unsigned(e, "who", 255)?;
    match step {
        1 => Ok(Action::REACH1(ActionREACH1 { who: Player(who as u8) })),
        2 => {
            let ten = get_attr_csv_i32(e, "ten")?;
            Ok(Action::REACH2(ActionREACH2 { who: Player(who as u8), ten }))
        }
        _ => Err(MjlogError::InvalidReachStep(step as u8)),
    }
}

/// The call record that a tag denotes, if well-formed and supported.
pub open spec fn spec_n(e: RawTag) -> Option<ActionN> {
    match spec_attr_unsigned(e, "who"@, 255) {
        None => None,
        Some(w) => match spec_attr_unsigned(e, "m"@, 0xffff) {
            None => None,
            Some(m) => if spec_meld_supported(m as u16) {
                Some(ActionN { who: Player(w as u8), m: spec_decoded_meld(m as u16) })
            } else {
                None
            },
        },
    }
}

pub fn conv_n(e: &RawTag) -> (r: MjlogResult<Action>)
    ensures
        (spec_n(*e) matches Some(a) ==> r == Ok::<Action, MjlogError>(Action::N(a))),
        (spec_n(*e) is None ==> r is Err),
{
    let who = get_attr_unsigned(e, "who", 255)?;
    let m = get_attr_unsigned(e, "m", 0xffff)?;
    let meld = conv_meld_from_u16(m as u16)?;
    Ok(Action::N(ActionN { who: Player(who as u8), m: meld }))
}

/// The grades named in a comma-separated attribute, when every field is
/// a valid grade code.
pub open spec fn spec_csv_ranks(e: RawTag, name: Seq<char>) -> Option<Seq<TenhouRank>> {
    match spec_attr_csv_unsigned(e, name, 255) {
        None => None,
        Some(vs) => if forall|k: int|
            0 <= k < vs.len() ==> spec_rank_from_u8(#[trigger] vs[k] as u8) is Some {
            Some(Seq::new(vs.len(), |k: int| spec_rank_from_u8(vs[k] as u8)->Some_0))
        } else {
            None
        },
    }
}

fn get_attr_csv_ranks(e: &RawTag, attr_name: &str) -> (r: MjlogResult<Vec<TenhouRank>>)
    ensures
        (r matches Ok(v) ==> spec_csv_ranks(*e, attr_name@) == Some(v@)),
        (r is Err <==> spec_csv_ranks(*e, attr_name@) is None),
{
    let raw = get_attr_csv_unsigned(e, attr_name, 255)?;
    let ghost vs = raw@.map_values(|x: u32| x as int);
    let mut out: Vec<TenhouRank> = Vec::new();
    let mut i: usize = 0;
    while i < raw.len()
        invariant
            i <= raw@.len(),
            vs == raw@.map_values(|x: u32| x as int),
            spec_attr_csv_unsigned(*e, attr_name@, 255) == Some(vs),
            out@.len() == i,
            forall|k: int|
                0 <= k < i ==> spec_rank_from_u8(#[trigger] vs[k] as u8) == Some(out@[k]),
        decreases raw@.len() - i,
    {
        proof {
            assert(vs[i as int] == raw@[i as int] as int);
        }
        match TenhouRank::from_u8(raw[i] as u8) {
            Some(rk) => {
                out.push(rk);
            }
            None => {
                proof {
                    assert(spec_rank_from_u8(vs[i as int] as u8) is None);
                }
                return Err(MjlogError::ParseError(get_attribute_str(e, attr_name)?));
            }
        }
        i = i + 1;
    }
    proof {
        assert(out@ =~= Seq::new(vs.len(), |k: int| spec_rank_from_u8(vs[k] as u8)->Some_0));
    }
    Ok(out)
}

/// The decoded view of a name attribute, if present.
pub open spec fn spec_name_view(e: RawTag, name: Seq<char>) -> Option<Seq<char>> {
    match attr_of(e, name) {
        None => None,
        Some(s) => Some(percent_decoded(s@)),
    }
}

/// How many of the four name slots are present.
pub open spec fn spec_name_count(e: RawTag) -> int {
    (if attr_of(e, "n0"@) is Some {
        1int
    } else {
        0int
    }) + (if attr_of(e, "n1"@) is Some {
        1int
    } else {
        0int
    }) + (if attr_of(e, "n2"@) is Some {
        1int
    } else {
        0int
    }) + (if attr_of(e, "n3"@) is Some {
        1int
    } else {
        0int
    })
}

/// Whether a roster/reconnect tag is well-formed: four names open the
/// roster (with grades, ratings and sexes), a single name is a
/// reconnect.
pub open spec fn spec_un_ok(e: RawTag) -> bool {
    if spec_name_count(e) == 4 {
        spec_csv_ranks(e, "dan"@) is Some && attr_of(e, "rate"@) is Some && attr_of(e, "sx"@)
            is Some
    } else {
        spec_name_count(e) == 1
    }
}

/// How a produced roster/reconnect action relates to its tag.
pub open spec fn spec_un_matches(e: RawTag, a: Action) -> bool {
    if spec_name_count(e) == 4 {
        a matches Action::UN1(u) && u.names@.len() == 4 && u.names@[0]@ == spec_name_view(
            e,
            "n0"@,
        )->Some_0 && u.names@[1]@ == spec_name_view(e, "n1"@)->Some_0 && u.names@[2]@
            == spec_name_view(e, "n2"@)->Some_0 && u.names@[3]@ == spec_name_view(e, "n3"@)->Some_0
            && Some(u.dan@) == spec_csv_ranks(e, "dan"@) && u.rate@.map_values(|x: String| x@)
            == crate::text::spec_csv_fields(attr_of(e, "rate"@)->Some_0@, 0) && u.sx@.map_values(
            |x: String| x@,
        ) == crate::text::spec_csv_fields(attr_of(e, "sx"@)->Some_0@, 0)
    } else {
        a matches Action::UN2(u) && u.who == Player(
            if attr_of(e, "n0"@) is Some {
                0u8
            } else if attr_of(e, "n1"@) is Some {
                1u8
            } else if attr_of(e, "n2"@) is Some {
                2u8
            } else {
                3u8
            },
        ) && u.name@ == (if attr_of(e, "n0"@) is Some {
            spec_name_view(e, "n0"@)->Some_0
        } else if attr_of(e, "n1"@) is Some {
            spec_name_view(e, "n1"@)->Some_0
        } else if attr_of(e, "n2"@) is Some {
            spec_name_view(e, "n2"@)->Some_0
        } else {
            spec_name_view(e, "n3"@)->Some_0
        })
    }
}

/// The roster/reconnect record: four decoded names open a match, one
/// decoded name is a reconnect; any other count is refused.
pub fn conv_uv(e: &RawTag) -> (r: MjlogResult<Action>)
    ensures
        (r is Ok <==> spec_un_ok(*e)),
        (r matches Ok(a) ==> spec_un_matches(*e, a)),
        (spec_name_count(*e) != 4 && spec_name_count(*e) != 1 ==> (r matches Err(er)
            && er matches MjlogError::InvalidNameNum(c) && c == spec_name_count(*e))),
{
    let n0 = match try_get_attribute_str(e, "n0") {
        Some(s) => Some(decode_percent_encoding(s.as_str())),
        None => None,
    };
    let n1 = match try_get_attribute_str(e, "n1") {
        Some(s) => Some(decode_percent_encoding(s.as_str())),
        None => None,
    };
    let n2 = match try_get_attribute_str(e, "n2") {
        Some(s) => Some(decode_percent_encoding(s.as_str())),
        None => None,
    };
    let n3 = match try_get_attribute_str(e, "n3") {
        Some(s) => Some(decode_percent_encoding(s.as_str())),
        None => None,
    };
    let mut cnt: usize = 0;
    if n0.is_some() {
        cnt = cnt + 1;
    }
    if n1.is_some() {
        cnt = cnt + 1;
    }
    if n2.is_some() {
        cnt = cnt + 1;
    }
    if n3.is_some() {
        cnt = cnt + 1;
    }
    if cnt == 4 {
        let dan = get_attr_csv_ranks(e, "dan")?;
        let rate_s = get_attribute_str(e, "rate")?;
        let rate = split_csv_strings(rate_s.as_str());
        let sx_s = get_attribute_str(e, "sx")?;
        let sx = split_csv_strings(sx_s.as_str());
        let mut names: Vec<String> = Vec::new();
        match n0 {
            Some(s) => names.push(s),
            None => {
                return Err(MjlogError::InvalidNameNum(4));
            }
        };
        match n1 {
            Some(s) => names.push(s),
            None => {
                return Err(MjlogError::InvalidNameNum(4));
            }
        };
        match n2 {
            Some(s) => names.push(s),
            None => {
                return Err(MjlogError::InvalidNameNum(4));
            }
        };
        match n3 {
            Some(s) => names.push(s),
            None => {
                return Err(MjlogError::InvalidNameNum(4));
            }
        };
        Ok(Action::UN1(ActionUN1 { names, dan, rate, sx }))
    } else if cnt == 1 {
        let (who, name) = if let Some(s) = n0 {
            (0u8, s)
        } else if let Some(s) = n1 {
            (1u8, s)
        } else if let Some(s) = n2 {
            (2u8, s)
        } else if let Some(s) = n3 {
            (3u8, s)
        } else {
            return Err(MjlogError::InvalidNameNum(1));
        };
        Ok(Action::UN2(ActionUN2 { who: Player(who), name }))
    } else {
        Err(MjlogError::InvalidNameNum(cnt))
    }
}

/// Whether a round-init tag is well-formed: a six-part seed, scores, the
/// dealer, and four starting hands.
pub open spec fn spec_init_ok(e: RawTag) -> bool {
    &&& spec_attr_csv_unsigned(e, "seed"@, 255) matches Some(sd) && sd.len() >= 6
    &&& spec_attr_csv_i32(e, "ten"@) is Some
    &&& spec_attr_unsigned(e, "oya"@, 255) is Some
    &&& spec_attr_csv_unsigned(e, "hai0"@, 255) is Some
    &&& spec_attr_csv_unsigned(e, "hai1"@, 255) is Some
    &&& spec_attr_csv_unsigned(e, "hai2"@, 255) is Some
    &&& spec_attr_csv_unsigned(e, "hai3"@, 255) is Some
}

/// How a produced round-init action relates to its tag.
pub open spec fn spec_init_matches(e: RawTag, a: Action) -> bool {
    let sd = spec_attr_csv_unsigned(e, "seed"@, 255)->Some_0;
    a matches Action::INIT(x) && x.seed == (InitSeed {
        kyoku: sd[0] as u8,
        honba: sd[1] as u8,
        kyoutaku: sd[2] as u8,
        dice: (sd[3] as u8, sd[4] as u8),
        dora_hyouji: Hai(sd[5] as u8),
    }) && x.ten@.map_values(|v: i32| v as int) == spec_attr_csv_i32(e, "ten"@)->Some_0 && x.oya
        == Player(spec_attr_unsigned(e, "oya"@, 255)->Some_0 as u8) && x.hai@.len() == 4
        && x.hai@[0]@ == spec_attr_csv_unsigned(e, "hai0"@, 255)->Some_0.map_values(
        |v: int| Hai(v as u8),
    ) && x.hai@[1]@ == spec_attr_csv_unsigned(e, "hai1"@, 255)->Some_0.map_values(
        |v: int| Hai(v as u8),
    ) && x.hai@[2]@ == spec_attr_csv_unsigned(e, "hai2"@, 255)->Some_0.map_values(
        |v: int| Hai(v as u8),
    ) && x.hai@[3]@ == spec_attr_csv_unsigned(e, "hai3"@, 255)->Some_0.map_values(
        |v: int| Hai(v as u8),
    )
}

/// The round-init record.
pub fn conv_init(e: &RawTag) -> (r: MjlogResult<Action>)
    ensures
        (r is Ok <==> spec_init_ok(*e)),
        (r matches Ok(a) ==> spec_init_matches(*e, a)),
{
    let seed = get_attr_csv_unsigned(e, "seed", 255)?;
    let ten = get_attr_csv_i32(e, "ten")?;
    let oya = get_attr_unsigned(e, "oya", 255)?;
    let hai0r = get_attr_csv_unsigned(e, "hai0", 255)?;
    let hai1r = get_attr_csv_unsigned(e, "hai1", 255)?;
    let hai2r = get_attr_csv_unsigned(e, "hai2", 255)?;
    let hai3r = get_attr_csv_unsigned(e, "hai3", 255)?;
    if seed.len() < 6 {
        return Err(MjlogError::ParseError(get_attribute_str(e, "seed")?));
    }
    let hai0 = to_hai_vec(&hai0r);
    let hai1 = to_hai_vec(&hai1r);
    let hai2 = to_hai_vec(&hai2r);
    let hai3 = to_hai_vec(&hai3r);
    proof {
        assert(hai0@ =~= spec_attr_csv_unsigned(*e, "hai0"@, 255)->Some_0.map_values(
            |v: int| Hai(v as u8),
        ));
        assert(hai1@ =~= spec_attr_csv_unsigned(*e, "hai1"@, 255)->Some_0.map_values(
            |v: int| Hai(v as u8),
        ));
        assert(hai2@ =~= spec_attr_csv_unsigned(*e, "hai2"@, 255)->Some_0.map_values(
            |v: int| Hai(v as u8),
        ));
        assert(hai3@ =~= spec_attr_csv_unsigned(*e, "hai3"@, 255)->Some_0.map_values(
            |v: int| Hai(v as u8),
        ));
    }
    let mut hai: Vec<Vec<Hai>> = Vec::new();
    hai.push(hai0);
    hai.push(hai1);
    hai.push(hai2);
    hai.push(hai3);
    Ok(
        Action::INIT(
            ActionINIT {
                seed: InitSeed {
                    kyoku: seed[0] as u8,
                    honba: seed[1] as u8,
                    kyoutaku: seed[2] as u8,
                    dice: (seed[3] as u8, seed[4] as u8),
                    dora_hyouji: Hai(seed[5] as u8),
                },
                ten,
                oya: Player(oya as u8),
                hai,
            },
        ),
    )
}

fn try_get_attr_csv_unsigned(e: &RawTag, attr_name: &str, max: u32) -> (r: MjlogResult<
    Option<Vec<u32>>,
>)
    ensures
        (attr_of(*e, attr_name@) is None ==> r == Ok::<Option<Vec<u32>>, MjlogError>(None)),
        (attr_of(*e, attr_name@) matches Some(s) ==> match spec_csv_unsigned(s@, max as int) {
            Some(sv) => r matches Ok(o) && o matches Some(v) && sv == v@.map_values(
                |x: u32| x as int,
            ) && (forall|k: int| 0 <= k < v@.len() ==> #[trigger] v@[k] <= max),
            None => r matches Err(er) && er matches MjlogError::ParseError(t) && t == s,
        }),
{
    match try_get_attribute_str(e, attr_name) {
        None => Ok(None),
        Some(s) => match parse_csv_unsigned(s.as_str(), max) {
            Some(v) => Ok(Some(v)),
            None => Err(MjlogError::ParseError(s)),
        },
    }
}

fn partition_even_odd_strings(v: &Vec<String>) -> (r: (Vec<String>, Vec<String>))
    ensures
        r.0@ == spec_evens(v@),
        r.1@ == spec_odds(v@),
{
    let mut evens: Vec<String> = Vec::new();
    let mut odds: Vec<String> = Vec::new();
    let mut i: usize = 0;
    while i < v.len()
        invariant
            i <= v@.len(),
            i % 2 == 0 ==> evens@.len() == i / 2 && odds@.len() == i / 2,
            i % 2 == 1 ==> evens@.len() == i / 2 + 1 && odds@.len() == i / 2,
            forall|k: int| 0 <= k < evens@.len() ==> evens@[k] == v@[2 * k],
            forall|k: int| 0 <= k < odds@.len() ==> odds@[k] == v@[2 * k + 1],
        decreases v@.len() - i,
    {
        if i % 2 == 0 {
            evens.push(v[i].clone());
        } else {
            odds.push(v[i].clone());
        }
        i = i + 1;
    }
    proof {
        assert(evens@ =~= spec_evens(v@));
        assert(odds@ =~= spec_odds(v@));
    }
    (evens, odds)
}

/// Whether the final-standing attribute, if present, has scores at its
/// even positions.
pub open spec fn spec_owari_ok(e: RawTag) -> bool {
    match attr_of(e, "owari"@) {
        None => true,
        Some(s) => {
            let es = spec_evens(crate::text::spec_csv_fields(s@, 0));
            forall|k: int|
                0 <= k < es.len() ==> crate::text::spec_parse_i32(#[trigger] es[k]) is Some
        },
    }
}

/// How a parsed final standing relates to its attribute: scores from the
/// even fields, free-form result text from the odd ones.
pub open spec fn spec_owari_matches(e: RawTag, o: Option<(Vec<GamePoint>, Vec<String>)>) -> bool {
    match attr_of(e, "owari"@) {
        None => o is None,
        Some(s) => {
            let fs = crate::text::spec_csv_fields(s@, 0);
            let es = spec_evens(fs);
            let os = spec_odds(fs);
            o matches Some(p) && p.0@.map_values(|x: i32| x as int) == Seq::new(
                es.len(),
                |k: int| crate::text::spec_parse_i32(es[k])->Some_0,
            ) && p.1@.map_values(|x: String| x@) == os
        },
    }
}

fn conv_owari(e: &RawTag) -> (r: MjlogResult<Option<(Vec<GamePoint>, Vec<String>)>>)
    ensures
        (r is Ok <==> spec_owari_ok(*e)),
        (r matches Ok(o) ==> spec_owari_matches(*e, o)),
        (r is Err ==> r == Err::<Option<(Vec<GamePoint>, Vec<String>)>, MjlogError>(
            MjlogError::InvalidOwari,
        )),
{
    match try_get_attribute_str(e, "owari") {
        None => Ok(None),
        Some(s) => {
            let ghost fs = crate::text::spec_csv_fields(s@, 0);
            let fields = split_csv_strings(s.as_str());
            let (evens, odds) = partition_even_odd_strings(&fields);
            let ghost es = spec_evens(fs);
            proof {
                assert(es.len() == evens@.len());
                assert forall|k: int| 0 <= k < evens@.len() implies #[trigger] evens@[k]@
                    == es[k] by {
                    assert(evens@[k] == fields@[2 * k]);
                    assert(fields@[2 * k]@ == fs[2 * k]);
                }
            }
            let mut pts: Vec<i32> = Vec::new();
            let mut i: usize = 0;
            while i < evens.len()
                invariant
                    i <= evens@.len(),
                    attr_of(*e, "owari"@) == Some(s),
                    es == spec_evens(crate::text::spec_csv_fields(s@, 0)),
                    es.len() == evens@.len(),
                    forall|k: int| 0 <= k < evens@.len() ==> #[trigger] evens@[k]@ == es[k],
                    pts@.len() == i,
                    forall|k: int|
                        0 <= k < i ==> crate::text::spec_parse_i32(#[trigger] es[k]) == Some(
                            pts@[k] as int,
                        ),
                decreases evens@.len() - i,
            {
                match crate::text::parse_i32_text(evens[i].as_str()) {
                    Some(v) => {
                        pts.push(v);
                    }
                    None => {
                        proof {
                            assert(crate::text::spec_parse_i32(es[i as int]) is None);
                        }
                        return Err(MjlogError::InvalidOwari);
                    }
                }
                i = i + 1;
            }
            proof {
                assert(pts@.map_values(|x: i32| x as int) =~= Seq::new(
                    es.len(),
                    |k: int| crate::text::spec_parse_i32(es[k])->Some_0,
                ));
                assert(odds@.map_values(|x: String| x@) =~= spec_odds(fs)) by {
                    assert forall|k: int| 0 <= k < odds@.len() implies #[trigger] odds@[k]@
                        == spec_odds(fs)[k] by {
                        assert(odds@[k] == fields@[2 * k + 1]);
                        assert(fields@[2 * k + 1]@ == fs[2 * k + 1]);
                    }
                }
            }
            Ok(Some((pts, odds)))
        }
    }
}

/// Whether every pair of a yaku list names a yaku: the codes sit at even
/// positions, the han values after them, and a trailing odd entry is
/// ignored.
pub open spec fn spec_yaku_pairs_ok(ys: Seq<int>) -> bool {
    forall|k: int|
        0 <= k < ys.len() / 2 ==> spec_yaku_from_u8(#[trigger] ys[2 * k] as u8) is Some
}

/// The yaku/han pairs of a yaku list.
pub open spec fn spec_yaku_pairs(ys: Seq<int>) -> Seq<(Yaku, u8)> {
    Seq::new(ys.len() / 2, |k: int| (spec_yaku_from_u8(ys[2 * k] as u8)->Some_0, ys[2 * k + 1] as u8))
}

fn conv_yaku_pairs(ys: &Vec<u32>) -> (r: MjlogResult<Vec<(Yaku, u8)>>)
    requires
        forall|k: int| 0 <= k < ys@.len() ==> #[trigger] ys@[k] <= 255,
    ensures
        (r is Ok <==> spec_yaku_pairs_ok(ys@.map_values(|x: u32| x as int))),
        (r matches Ok(v) ==> v@ == spec_yaku_pairs(ys@.map_values(|x: u32| x as int))),
{
    let ghost vs = ys@.map_values(|x: u32| x as int);
    let mut out: Vec<(Yaku, u8)> = Vec::new();
    let mut i: usize = 0;
    while i + 1 < ys.len()
        invariant
            vs == ys@.map_values(|x: u32| x as int),
            i % 2 == 0,
            i <= ys@.len(),
            out@.len() == i / 2,
            forall|k: int|
                0 <= k < i / 2 ==> spec_yaku_from_u8(#[trigger] vs[2 * k] as u8) is Some,
            forall|k: int|
                0 <= k < i / 2 ==> #[trigger] out@[k] == (
                    spec_yaku_from_u8(vs[2 * k] as u8)->Some_0,
                    vs[2 * k + 1] as u8,
                ),
        decreases ys@.len() - i,
    {
        let code = ys[i] as u8;
        match Yaku::from_u8(code) {
            Some(y) => {
                out.push((y, ys[i + 1] as u8));
            }
            None => {
                proof {
                    assert(spec_yaku_from_u8(vs[i as int] as u8) is None);
                    assert(vs[2 * ((i as int) / 2)] == vs[i as int]);
                }
                return Err(MjlogError::InvalidYakuNum(code));
            }
        }
        i = i + 2;
    }
    proof {
        assert(out@.len() == vs.len() / 2);
        assert(out@ =~= spec_yaku_pairs(vs));
    }
    Ok(out)
}

/// Whether every entry of a yakuman list names a yaku.
pub open spec fn spec_yaku_list_ok(ys: Seq<int>) -> bool {
    forall|k: int| 0 <= k < ys.len() ==> spec_yaku_from_u8(#[trigger] ys[k] as u8) is Some
}

/// The yaku named by each entry of a yakuman list.
pub open spec fn spec_yaku_list(ys: Seq<int>) -> Seq<Yaku> {
    Seq::new(ys.len(), |k: int| spec_yaku_from_u8(ys[k] as u8)->Some_0)
}

fn conv_yaku_list(ys: &Vec<u32>) -> (r: MjlogResult<Vec<Yaku>>)
    requires
        forall|k: int| 0 <= k < ys@.len() ==> #[trigger] ys@[k] <= 255,
    ensures
        (r is Ok <==> spec_yaku_list_ok(ys@.map_values(|x: u32| x as int))),
        (r matches Ok(v) ==> v@ == spec_yaku_list(ys@.map_values(|x: u32| x as int))),
{
    let ghost vs = ys@.map_values(|x: u32| x as int);
    let mut out: Vec<Yaku> = Vec::new();
    let mut i: usize = 0;
    while i < ys.len()
        invariant
            vs == ys@.map_values(|x: u32| x as int),
            i <= ys@.len(),
            out@.len() == i,
            forall|k: int| 0 <= k < i ==> spec_yaku_from_u8(#[trigger] vs[k] as u8) is Some,
            forall|k: int| 0 <= k < i ==> #[trigger] out@[k] == spec_yaku_from_u8(vs[k] as u8)->Some_0,
        decreases ys@.len() - i,
    {
        let code = ys[i] as u8;
        match Yaku::from_u8(code) {
            Some(y) => {
                out.push(y);
            }
            None => {
                proof {
                    assert(spec_yaku_from_u8(vs[i as int] as u8) is None);
                }
                return Err(MjlogError::InvalidYakuNum(code));
            }
        }
        i = i + 1;
    }
    proof {
        assert(out@ =~= spec_yaku_list(vs));
    }
    Ok(out)
}

/// Whether every entry of a call list is a supported descriptor.
pub open spec fn spec_meld_list_ok(ms: Seq<int>) -> bool {
    forall|k: int| 0 <= k < ms.len() ==> spec_meld_supported(#[trigger] ms[k] as u16)
}

/// The calls of a call list.
pub open spec fn spec_meld_list(ms: Seq<int>) -> Seq<Meld> {
    Seq::new(ms.len(), |k: int| spec_decoded_meld(ms[k] as u16))
}

fn conv_meld_list(ms: &Vec<u32>) -> (r: MjlogResult<Vec<Meld>>)
    requires
        forall|k: int| 0 <= k < ms@.len() ==> #[trigger] ms@[k] <= 0xffff,
    ensures
        (r is Ok <==> spec_meld_list_ok(ms@.map_values(|x: u32| x as int))),
        (r matches Ok(v) ==> v@ == spec_meld_list(ms@.map_values(|x: u32| x as int))),
{
    let ghost vs = ms@.map_values(|x: u32| x as int);
    let mut out: Vec<Meld> = Vec::new();
    let mut i: usize = 0;
    while i < ms.len()
        invariant
            vs == ms@.map_values(|x: u32| x as int),
            forall|k: int| 0 <= k < ms@.len() ==> #[trigger] ms@[k] <= 0xffff,
            i <= ms@.len(),
            out@.len() == i,
            forall|k: int| 0 <= k < i ==> spec_meld_supported(#[trigger] vs[k] as u16),
            forall|k: int| 0 <= k < i ==> #[trigger] out@[k] == spec_decoded_meld(vs[k] as u16),
        decreases ms@.len() - i,
    {
        match conv_meld_from_u16(ms[i] as u16) {
            Ok(meld) => {
                out.push(meld);
            }
            Err(er) => {
                proof {
                    assert(!spec_meld_supported(vs[i as int] as u16));
                }
                return Err(er);
            }
        }
        i = i + 1;
    }
    proof {
        assert(out@ =~= spec_meld_list(vs));
    }
    Ok(out)
}

/// Whether a winning tag is well-formed.
pub open spec fn spec_agari_ok(e: RawTag) -> bool {
    &&& spec_attr_csv_unsigned(e, "ba"@, 255) matches Some(ba) && ba.len() == 2
    &&& spec_attr_csv_unsigned(e, "hai"@, 255) is Some
    &&& spec_attr_csv_unsigned_or_empty(e, "m"@, 0xffff) matches Some(ms) && spec_meld_list_ok(ms)
    &&& spec_attr_unsigned(e, "machi"@, 255) is Some
    &&& spec_attr_csv_unsigned(e, "ten"@, 0xffff_ffff) matches Some(ten) && ten.len() == 3
        && spec_score_rank_from_u8(ten[2] as u8) is Some
    &&& spec_attr_csv_unsigned_or_empty(e, "yaku"@, 255) matches Some(ys) && spec_yaku_pairs_ok(ys)
    &&& spec_attr_csv_unsigned_or_empty(e, "yakuman"@, 255) matches Some(yms) && spec_yaku_list_ok(
        yms,
    )
    &&& spec_attr_csv_unsigned(e, "doraHai"@, 255) is Some
    &&& spec_attr_csv_unsigned_or_empty(e, "doraHaiUra"@, 255) is Some
    &&& spec_attr_unsigned(e, "who"@, 255) is Some
    &&& spec_attr_unsigned(e, "fromWho"@, 255) is Some
    &&& (attr_of(e, "paoWho"@) is Some ==> spec_attr_unsigned(e, "paoWho"@, 255) is Some)
    &&& spec_attr_csv_i32(e, "sc"@) is Some
    &&& spec_owari_ok(e)
}

/// How a produced winning record relates to its tag.
pub open spec fn spec_agari_matches(e: RawTag, x: ActionAGARI) -> bool {
    let ba = spec_attr_csv_unsigned(e, "ba"@, 255)->Some_0;
    let ten = spec_attr_csv_unsigned(e, "ten"@, 0xffff_ffff)->Some_0;
    let sc = spec_attr_csv_i32(e, "sc"@)->Some_0;
    &&& x.honba == ba[0] as u8
    &&& x.kyoutaku == ba[1] as u8
    &&& x.hai@ == spec_attr_csv_unsigned(e, "hai"@, 255)->Some_0.map_values(|v: int| Hai(v as u8))
    &&& x.m@ == spec_meld_list(spec_attr_csv_unsigned_or_empty(e, "m"@, 0xffff)->Some_0)
    &&& x.machi == Hai(spec_attr_unsigned(e, "machi"@, 255)->Some_0 as u8)
    &&& x.fu == ten[0] as u8
    &&& x.net_score == ten[1] as u32
    &&& x.score_rank == spec_score_rank_from_u8(ten[2] as u8)->Some_0
    &&& x.yaku@ == spec_yaku_pairs(spec_attr_csv_unsigned_or_empty(e, "yaku"@, 255)->Some_0)
    &&& x.yakuman@ == spec_yaku_list(spec_attr_csv_unsigned_or_empty(e, "yakuman"@, 255)->Some_0)
    &&& x.dora_hai@ == spec_attr_csv_unsigned(e, "doraHai"@, 255)->Some_0.map_values(
        |v: int| Hai(v as u8),
    )
    &&& x.dora_hai_ura@ == spec_attr_csv_unsigned_or_empty(e, "doraHaiUra"@, 255)->Some_0.map_values(
        |v: int| Hai(v as u8),
    )
    &&& x.who == Player(spec_attr_unsigned(e, "who"@, 255)->Some_0 as u8)
    &&& x.from_who == Player(spec_attr_unsigned(e, "fromWho"@, 255)->Some_0 as u8)
    &&& x.pao_who == (match attr_of(e, "paoWho"@) {
        None => None,
        Some(_) => Some(Player(spec_attr_unsigned(e, "paoWho"@, 255)->Some_0 as u8)),
    })
    &&& x.before_points@.map_values(|v: i32| v as int) == spec_evens(sc)
    &&& x.delta_points@.map_values(|v: i32| v as int) == spec_odds(sc)
    &&& spec_owari_matches(e, x.owari)
}

/// The winning record.
pub fn conv_agari(e: &RawTag) -> (r: MjlogResult<Action>)
    ensures
        (r is Ok <==> spec_agari_ok(*e)),
        (r matches Ok(a) ==> a matches Action::AGARI(x) && spec_agari_matches(*e, x)),
{
    let ba = get_attr_csv_unsigned(e, "ba", 255)?;
    let hai_raw = get_attr_csv_unsigned(e, "hai", 255)?;
    let m_raw = get_attr_csv_unsigned_or_empty(e, "m", 0xffff)?;
    let machi = get_attr_unsigned(e, "machi", 255)?;
    let ten = get_attr_csv_unsigned(e, "ten", 0xffff_ffff)?;
    let yaku_raw = get_attr_csv_unsigned_or_empty(e, "yaku", 255)?;
    let yakuman_raw = get_attr_csv_unsigned_or_empty(e, "yakuman", 255)?;
    let dora_raw = get_attr_csv_unsigned(e, "doraHai", 255)?;
    let ura_raw = get_attr_csv_unsigned_or_empty(e, "doraHaiUra", 255)?;
    let who = get_attr_unsigned(e, "who", 255)?;
    let from_who = get_attr_unsigned(e, "fromWho", 255)?;
    let pao_who_raw = try_get_attr_unsigned(e, "paoWho", 255)?;
    let sc = get_attr_csv_i32(e, "sc")?;
    let owari = conv_owari(e)?;

    if ba.len() != 2 {
        return Err(MjlogError::InvalidBaLength(ba.len()));
    }
    if ten.len() != 3 {
        return Err(MjlogError::InvalidTenLength(ten.len()));
    }

    let m = conv_meld_list(&m_raw)?;
    let rank_code = #[verifier::truncate] (ten[2] as u8);
    let score_rank = match ScoreRank::from_u8(rank_code) {
        Some(x) => x,
        None => {
            return Err(MjlogError::InvalidScoreRank(rank_code));
        }
    };
    let yaku = conv_yaku_pairs(&yaku_raw)?;
    let yakuman = conv_yaku_list(&yakuman_raw)?;
    let (before_points, delta_points) = partition_even_odd_i32(&sc);

    let hai = to_hai_vec(&hai_raw);
    let dora_hai = to_hai_vec(&dora_raw);
    let dora_hai_ura = to_hai_vec(&ura_raw);
    proof {
        assert(hai@ =~= spec_attr_csv_unsigned(*e, "hai"@, 255)->Some_0.map_values(
            |v: int| Hai(v as u8),
        ));
        assert(dora_hai@ =~= spec_attr_csv_unsigned(*e, "doraHai"@, 255)->Some_0.map_values(
            |v: int| Hai(v as u8),
        ));
        assert(dora_hai_ura@ =~= spec_attr_csv_unsigned_or_empty(
            *e,
            "doraHaiUra"@,
            255,
        )->Some_0.map_values(|v: int| Hai(v as u8)));
        assert(before_points@.map_values(|v: i32| v as int) =~= spec_evens(
            spec_attr_csv_i32(*e, "sc"@)->Some_0,
        ));
        assert(delta_points@.map_values(|v: i32| v as int) =~= spec_odds(
            spec_attr_csv_i32(*e, "sc"@)->Some_0,
        ));
    }

    let agari = ActionAGARI {
        honba: ba[0] as u8,
        kyoutaku: ba[1] as u8,
        hai,
        m,
        machi: Hai(machi as u8),
        fu: #[verifier::truncate] (ten[0] as u8),
        net_score: ten[1],
        score_rank,
        yaku,
        yakuman,
        dora_hai,
        dora_hai_ura,
        who: Player(who as u8),
        from_who: Player(from_who as u8),
        pao_who: match pao_who_raw {
            Some(w) => Some(Player(w as u8)),
            None => None,
        },
        before_points,
        delta_points,
        owari,
    };
    Ok(Action::AGARI(agari))
}

/// Whether a drawn-round tag is well-formed.
pub open spec fn spec_ryuukyoku_ok(e: RawTag) -> bool {
    &&& spec_attr_csv_unsigned(e, "ba"@, 255) matches Some(ba) && ba.len() == 2
    &&& spec_attr_csv_i32(e, "sc"@) is Some
    &&& (attr_of(e, "hai0"@) is Some ==> spec_attr_csv_unsigned(e, "hai0"@, 255) is Some)
    &&& (attr_of(e, "hai1"@) is Some ==> spec_attr_csv_unsigned(e, "hai1"@, 255) is Some)
    &&& (attr_of(e, "hai2"@) is Some ==> spec_attr_csv_unsigned(e, "hai2"@, 255) is Some)
    &&& (attr_of(e, "hai3"@) is Some ==> spec_attr_csv_unsigned(e, "hai3"@, 255) is Some)
    &&& (attr_of(e, "type"@) matches Some(s) ==> spec_mj_reason_from_text(s@) is Some)
    &&& spec_owari_ok(e)
}

/// The optional closing-hand snapshot of one seat.
pub open spec fn spec_ryuukyoku_hand(e: RawTag, name: Seq<char>) -> Option<Seq<Hai>> {
    match attr_of(e, name) {
        None => None,
        Some(_) => Some(
            spec_attr_csv_unsigned(e, name, 255)->Some_0.map_values(|v: int| Hai(v as u8)),
        ),
    }
}

/// How a produced drawn-round record relates to its tag.
pub open spec fn spec_ryuukyoku_matches(e: RawTag, x: ActionRYUUKYOKU) -> bool {
    let ba = spec_attr_csv_unsigned(e, "ba"@, 255)->Some_0;
    let sc = spec_attr_csv_i32(e, "sc"@)->Some_0;
    &&& x.honba == ba[0] as u8
    &&& x.kyoutaku == ba[1] as u8
    &&& x.before_points@.map_values(|v: i32| v as int) == spec_evens(sc)
    &&& x.delta_points@.map_values(|v: i32| v as int) == spec_odds(sc)
    &&& (match x.hai0 {
        None => spec_ryuukyoku_hand(e, "hai0"@) is None,
        Some(v) => spec_ryuukyoku_hand(e, "hai0"@) == Some(v@),
    })
    &&& (match x.hai1 {
        None => spec_ryuukyoku_hand(e, "hai1"@) is None,
        Some(v) => spec_ryuukyoku_hand(e, "hai1"@) == Some(v@),
    })
    &&& (match x.hai2 {
        None => spec_ryuukyoku_hand(e, "hai2"@) is None,
        Some(v) => spec_ryuukyoku_hand(e, "hai2"@) == Some(v@),
    })
    &&& (match x.hai3 {
        None => spec_ryuukyoku_hand(e, "hai3"@) is None,
        Some(v) => spec_ryuukyoku_hand(e, "hai3"@) == Some(v@),
    })
    &&& x.reason == (match attr_of(e, "type"@) {
        None => None,
        Some(s) => Some(spec_mj_reason_from_text(s@)->Some_0),
    })
    &&& spec_owari_matches(e, x.owari)
}

fn try_hai_list(e: &RawTag, attr_name: &str) -> (r: MjlogResult<Option<Vec<Hai>>>)
    ensures
        (r is Ok <==> (attr_of(*e, attr_name@) is Some ==> spec_attr_csv_unsigned(
            *e,
            attr_name@,
            255,
        ) is Some)),
        (r matches Ok(o) ==> match o {
            None => spec_ryuukyoku_hand(*e, attr_name@) is None,
            Some(v) => spec_ryuukyoku_hand(*e, attr_name@) == Some(v@),
        }),
{
    match try_get_attr_csv_unsigned(e, attr_name, 255)? {
        None => Ok(None),
        Some(raw) => {
            let v = to_hai_vec(&raw);
            proof {
                assert(v@ =~= spec_attr_csv_unsigned(*e, attr_name@, 255)->Some_0.map_values(
                    |x: int| Hai(x as u8),
                ));
            }
            Ok(Some(v))
        }
    }
}

/// The drawn-round record.
pub fn conv_ryuukyoku(e: &RawTag) -> (r: MjlogResult<Action>)
    ensures
        (r is Ok <==> spec_ryuukyoku_ok(*e)),
        (r matches Ok(a) ==> a matches Action::RYUUKYOKU(x) && spec_ryuukyoku_matches(*e, x)),
{
    let ba = get_attr_csv_unsigned(e, "ba", 255)?;
    let hai0 = try_hai_list(e, "hai0")?;
    let hai1 = try_hai_list(e, "hai1")?;
    let hai2 = try_hai_list(e, "hai2")?;
    let hai3 = try_hai_list(e, "hai3")?;
    let sc = get_attr_csv_i32(e, "sc")?;
    let (before_points, delta_points) = partition_even_odd_i32(&sc);
    let type_str = try_get_attribute_str(e, "type");
    let owari = conv_owari(e)?;

    if ba.len() != 2 {
        return Err(MjlogError::InvalidBaLength(ba.len()));
    }

    let reason = match type_str {
        None => None,
        Some(s) => match ExtraRyuukyokuReason::from_text(&s) {
            Some(x) => Some(x),
            None => {
                return Err(
                    MjlogError::ObjectParseError(ParseError::InvalidExtraRyuukyokuReason),
                );
            }
        },
    };

    proof {
        assert(before_points@.map_values(|v: i32| v as int) =~= spec_evens(
            spec_attr_csv_i32(*e, "sc"@)->Some_0,
        ));
        assert(delta_points@.map_values(|v: i32| v as int) =~= spec_odds(
            spec_attr_csv_i32(*e, "sc"@)->Some_0,
        ));
    }

    Ok(
        Action::RYUUKYOKU(
            ActionRYUUKYOKU {
                honba: ba[0] as u8,
                kyoutaku: ba[1] as u8,
                before_points,
                delta_points,
                hai0,
                hai1,
                hai2,
                hai3,
                reason,
                owari,
            },
        ),
    )
}

/// How a produced riichi action relates to its tag.
pub open spec fn spec_reach_matches(e: RawTag, a: Action) -> bool {
    let step = spec_attr_unsigned(e, "step"@, 255)->Some_0;
    let w = spec_attr_unsigned(e, "who"@, 255)->Some_0;
    if step == 1 {
        a == Action::REACH1(ActionREACH1 { who: Player(w as u8) })
    } else {
        a matches Action::REACH2(x) && x.who == Player(w as u8) && x.ten@.map_values(
            |v: i32| v as int,
        ) == spec_attr_csv_i32(e, "ten"@)->Some_0
    }
}

/// The seat and stream of a draw/discard tag letter.
pub open spec fn spec_seat_letter(c: char) -> Option<(int, bool)> {
    if c == 'T' {
        Some((0int, true))
    } else if c == 'U' {
        Some((1int, true))
    } else if c == 'V' {
        Some((2int, true))
    } else if c == 'W' {
        Some((3int, true))
    } else if c == 'D' {
        Some((0int, false))
    } else if c == 'E' {
        Some((1int, false))
    } else if c == 'F' {
        Some((2int, false))
    } else if c == 'G' {
        Some((3int, false))
    } else {
        None
    }
}

/// The draw or discard that a one-letter tag with an ordinal denotes, if
/// the ordinal is a physical tile.
pub open spec fn spec_hai_tag(name: Seq<char>) -> Option<Action> {
    if name.len() == 0 {
        None
    } else {
        match spec_seat_letter(name[0]) {
            None => None,
            Some(p) => match crate::text::spec_parse_unsigned(
                name.subrange(1, name.len() as int),
                255,
            ) {
                None => None,
                Some(h) => if h < 136 {
                    if p.1 {
                        Some(Action::DRAW(ActionDRAW { who: Player(p.0 as u8), hai: Hai(h as u8) }))
                    } else {
                        Some(
                            Action::DISCARD(
                                ActionDISCARD { who: Player(p.0 as u8), hai: Hai(h as u8) },
                            ),
                        )
                    }
                } else {
                    None
                },
            },
        }
    }
}

fn parse_hai_tag(name: &String) -> (r: Option<Action>)
    ensures
        r == spec_hai_tag(name@),
{
    let cs = crate::text::chars_vec(name.as_str());
    if cs.len() == 0 {
        return None;
    }
    let c = cs[0];
    let seat: (u8, bool) = if c == 'T' {
        (0, true)
    } else if c == 'U' {
        (1, true)
    } else if c == 'V' {
        (2, true)
    } else if c == 'W' {
        (3, true)
    } else if c == 'D' {
        (0, false)
    } else if c == 'E' {
        (1, false)
    } else if c == 'F' {
        (2, false)
    } else if c == 'G' {
        (3, false)
    } else {
        return None;
    };
    match crate::text::parse_unsigned_chars(&cs, 1, 255) {
        None => None,
        Some(h) => {
            if h < 136 {
                if seat.1 {
                    Some(Action::DRAW(ActionDRAW { who: Player(seat.0), hai: Hai(h as u8) }))
                } else {
                    Some(Action::DISCARD(ActionDISCARD { who: Player(seat.0), hai: Hai(h as u8) }))
                }
            } else {
                None
            }
        }
    }
}

/// Whether one tagged record denotes an action.
pub open spec fn spec_action_ok(e: RawTag) -> bool {
    let n = e.name@;
    if n == "SHUFFLE"@ {
        attr_of(e, "seed"@) is Some
    } else if n == "GO"@ {
        spec_go(e) is Some
    } else if n == "UN"@ {
        spec_un_ok(e)
    } else if n == "BYE"@ {
        spec_bye(e) is Some
    } else if n == "TAIKYOKU"@ {
        spec_taikyoku(e) is Some
    } else if n == "INIT"@ {
        spec_init_ok(e)
    } else if n == "REACH"@ {
        spec_reach_ok(e)
    } else if n == "N"@ {
        spec_n(e) is Some
    } else if n == "DORA"@ {
        spec_dora(e) is Some
    } else if n == "AGARI"@ {
        spec_agari_ok(e)
    } else if n == "RYUUKYOKU"@ {
        spec_ryuukyoku_ok(e)
    } else {
        spec_hai_tag(n) is Some
    }
}

/// How a produced action relates to its record.
pub open spec fn spec_action_matches(e: RawTag, a: Action) -> bool {
    let n = e.name@;
    if n == "SHUFFLE"@ {
        a == Action::SHUFFLE(ActionSHUFFLE { seed: attr_of(e, "seed"@)->Some_0 })
    } else if n == "GO"@ {
        a == Action::GO(spec_go(e)->Some_0)
    } else if n == "UN"@ {
        spec_un_matches(e, a)
    } else if n == "BYE"@ {
        a == Action::BYE(spec_bye(e)->Some_0)
    } else if n == "TAIKYOKU"@ {
        a == Action::TAIKYOKU(spec_taikyoku(e)->Some_0)
    } else if n == "INIT"@ {
        spec_init_matches(e, a)
    } else if n == "REACH"@ {
        spec_reach_matches(e, a)
    } else if n == "N"@ {
        a == Action::N(spec_n(e)->Some_0)
    } else if n == "DORA"@ {
        a == Action::DORA(spec_dora(e)->Some_0)
    } else if n == "AGARI"@ {
        a matches Action::AGARI(x) && spec_agari_matches(e, x)
    } else if n == "RYUUKYOKU"@ {
        a matches Action::RYUUKYOKU(x) && spec_ryuukyoku_matches(e, x)
    } else {
        Some(a) == spec_hai_tag(n)
    }
}

/// One tagged record into one action.
pub fn conv_action(e: &RawTag) -> (r: MjlogResult<Action>)
    ensures
        (r is Ok <==> spec_action_ok(*e)),
        (r matches Ok(a) ==> spec_action_matches(*e, a)),
{
    if e.name.eq(&String::from_str("SHUFFLE")) {
        conv_shuffle(e)
    } else if e.name.eq(&String::from_str("GO")) {
        conv_go(e)
    } else if e.name.eq(&String::from_str("UN")) {
        conv_uv(e)
    } else if e.name.eq(&String::from_str("BYE")) {
        conv_bye(e)
    } else if e.name.eq(&String::from_str("TAIKYOKU")) {
        conv_taikyoku(e)
    } else if e.name.eq(&String::from_str("INIT")) {
        conv_init(e)
    } else if e.name.eq(&String::from_str("REACH")) {
        conv_reach(e)
    } else if e.name.eq(&String::from_str("N")) {
        conv_n(e)
    } else if e.name.eq(&String::from_str("DORA")) {
        conv_dora(e)
    } else if e.name.eq(&String::from_str("AGARI")) {
        conv_agari(e)
    } else if e.name.eq(&String::from_str("RYUUKYOKU")) {
        conv_ryuukyoku(e)
    } else {
        match parse_hai_tag(&e.name) {
            Some(a) => Ok(a),
            None => Err(MjlogError::UnexpectedTag(e.name.clone())),
        }
    }
}

/// The events that the interpreter passes over.
pub open spec fn spec_skip_event(ev: RawEvent) -> bool {
    ev matches RawEvent::Decl || ev matches RawEvent::DocType || ev matches RawEvent::Comment
}

/// The records of one match element from position `i` up to its end tag,
/// with the position after the end tag; anything else refuses the
/// element.
pub open spec fn spec_collect_group(events: Seq<RawEvent>, i: int) -> Option<(Seq<RawTag>, int)>
    decreases events.len() - i,
    when 0 <= i <= events.len()
{
    if i >= events.len() {
        None
    } else if spec_skip_event(events[i]) {
        spec_collect_group(events, i + 1)
    } else {
        match events[i] {
            RawEvent::TagEmpty(t) => match spec_collect_group(events, i + 1) {
                None => None,
                Some(p) => Some((seq![t] + p.0, p.1)),
            },
            RawEvent::TagEnd(n) => if n@ == "mjloggm"@ {
                Some((Seq::empty(), i + 1))
            } else {
                None
            },
            _ => None,
        }
    }
}

proof fn lemma_collect_group_bounds(events: Seq<RawEvent>, i: int)
    requires
        0 <= i <= events.len(),
    ensures
        spec_collect_group(events, i) matches Some(p) ==> i < p.1 <= events.len(),
    decreases events.len() - i,
{
    if i < events.len() {
        lemma_collect_group_bounds(events, i + 1);
    }
}

/// The match elements of a whole event stream: for each, the version
/// attribute of its opening tag and its records.
pub open spec fn spec_groups(events: Seq<RawEvent>, i: int) -> Option<Seq<(String, Seq<RawTag>)>>
    decreases events.len() - i + 1,
    when 0 <= i <= events.len()
    via spec_groups_dec
{
    if i >= events.len() {
        Some(Seq::empty())
    } else if spec_skip_event(events[i]) {
        spec_groups(events, i + 1)
    } else {
        match events[i] {
            RawEvent::TagStart(t) => if t.name@ == "mjloggm"@ {
                match attr_of(t, "ver"@) {
                    None => None,
                    Some(ver) => match spec_collect_group(events, i + 1) {
                        None => None,
                        Some(p) => match spec_groups(events, p.1) {
                            None => None,
                            Some(gs) => Some(seq![(ver, p.0)] + gs),
                        },
                    },
                }
            } else {
                None
            },
            _ => None,
        }
    }
}

#[via_fn]
proof fn spec_groups_dec(events: Seq<RawEvent>, i: int) {
    if 0 <= i && i < events.len() {
        lemma_collect_group_bounds(events, i + 1);
    }
}

pub open spec fn spec_group_actions_ok(ts: Seq<RawTag>) -> bool {
    forall|k: int| 0 <= k < ts.len() ==> spec_action_ok(#[trigger] ts[k])
}

pub open spec fn spec_all_groups_ok(gs: Seq<(String, Seq<RawTag>)>) -> bool {
    forall|g: int| 0 <= g < gs.len() ==> spec_group_actions_ok(#[trigger] gs[g].1)
}

/// How one interpreted log relates to its element: the version text and
/// one action per record, in order.
pub open spec fn spec_mjlog_matches(m: Mjlog, g: (String, Seq<RawTag>)) -> bool {
    &&& m.ver == g.0
    &&& m.actions@.len() == g.1.len()
    &&& forall|k: int| 0 <= k < g.1.len() ==> spec_action_matches(g.1[k], #[trigger] m.actions@[k])
}

/// Interprets a whole tokenized document: any number of match elements,
/// each a version and a record list, everything else refused.
pub fn parse_mjlogs(events: &Vec<RawEvent>) -> (r: MjlogResult<Vec<Mjlog>>)
    ensures
        (r is Ok <==> (spec_groups(events@, 0) matches Some(gs) && spec_all_groups_ok(gs))),
        (r matches Ok(logs) ==> (spec_groups(events@, 0) matches Some(gs) && logs@.len()
            == gs.len() && (forall|g: int|
            0 <= g < gs.len() ==> spec_mjlog_matches(#[trigger] logs@[g], gs[g])))),
{
    let n = events.len();
    let mut logs: Vec<Mjlog> = Vec::new();
    let ghost mut done: Seq<(String, Seq<RawTag>)> = Seq::empty();
    let mut i: usize = 0;
    loop
        invariant
            0 <= i <= events@.len(),
            (spec_groups(events@, i as int) matches Some(rest) ==> spec_groups(events@, 0) == Some(
                done + rest,
            )),
            (spec_groups(events@, i as int) is None ==> spec_groups(events@, 0) is None),
            logs@.len() == done.len(),
            spec_all_groups_ok(done),
            forall|g: int| 0 <= g < done.len() ==> spec_mjlog_matches(#[trigger] logs@[g], done[g]),
        decreases events@.len() - i,
    {
        if i >= events.len() {
            proof {
                assert(spec_groups(events@, i as int) == Some(Seq::<(String, Seq<RawTag>)>::empty()));
                assert(done + Seq::<(String, Seq<RawTag>)>::empty() =~= done);
            }
            return Ok(logs);
        }
        match &events[i] {
            RawEvent::Decl => {
                i = i + 1;
            }
            RawEvent::DocType => {
                i = i + 1;
            }
            RawEvent::Comment => {
                i = i + 1;
            }
            RawEvent::PI => {
                return Err(MjlogError::UnexpectedPI);
            }
            RawEvent::CData => {
                return Err(MjlogError::UnexpectedCData);
            }
            RawEvent::Text => {
                return Err(MjlogError::UnexpectedText);
            }
            RawEvent::TagEmpty(t) => {
                return Err(MjlogError::UnexpectedTag(t.name.clone()));
            }
            RawEvent::TagEnd(nm) => {
                return Err(MjlogError::UnexpectedTag(nm.clone()));
            }
            RawEvent::TagStart(t) => {
                let is_mjloggm = t.name.eq(&String::from_str("mjloggm"));
                if !is_mjloggm {
                    return Err(MjlogError::UnexpectedTag(t.name.clone()));
                }
                let ver = get_attribute_str(t, "ver")?;
                let ghost ver_s = attr_of(*t, "ver"@)->Some_0;
                let ghost i0 = i as int;
                let mut actions: Vec<Action> = Vec::new();
                let ghost mut tags: Seq<RawTag> = Seq::empty();
                let mut j: usize = i + 1;
                proof {
                    assert(events@[i as int] == RawEvent::TagStart(*t));
                    assert(!spec_skip_event(events@[i as int]));
                    assert(t.name@ == "mjloggm"@);
                    assert(attr_of(*t, "ver"@) == Some(ver));
                    lemma_collect_group_bounds(events@, i + 1);
                    let cg = spec_collect_group(events@, i + 1);
                    if cg is Some {
                        let p = cg->Some_0;
                        let g2 = spec_groups(events@, p.1);
                        if g2 is Some {
                            let gs2 = g2->Some_0;
                            assert(spec_groups(events@, i as int) == Some(
                                seq![(ver_s, p.0)] + gs2,
                            ));
                            assert(Seq::<RawTag>::empty() + p.0 =~= p.0);
                            assert(done + (seq![(ver_s, p.0)] + gs2) =~= done + seq![(ver_s, p.0)]
                                + gs2);
                        } else {
                            assert(spec_groups(events@, i as int) is None);
                        }
                    } else {
                        assert(spec_groups(events@, i as int) is None);
                    }
                }
                loop
                    invariant_except_break
                        i0 < j <= events@.len(),
                        i0 == i,
                        ver == ver_s,
                        (spec_collect_group(events@, j as int) matches Some(p) ==> match
                            spec_groups(events@, p.1) {
                            Some(gs2) => spec_groups(events@, 0) == Some(
                                done + seq![(ver_s, tags + p.0)] + gs2,
                            ),
                            None => spec_groups(events@, 0) is None,
                        }),
                        (spec_collect_group(events@, j as int) is None ==> spec_groups(events@, 0)
                            is None),
                        actions@.len() == tags.len(),
                        spec_group_actions_ok(tags),
                        forall|k: int|
                            0 <= k < tags.len() ==> spec_action_matches(
                                tags[k],
                                #[trigger] actions@[k],
                            ),
                        logs@.len() == done.len(),
                        spec_all_groups_ok(done),
                        forall|g: int|
                            0 <= g < done.len() ==> spec_mjlog_matches(
                                #[trigger] logs@[g],
                                done[g],
                            ),
                    ensures
                        i0 < i <= events@.len(),
                        (spec_groups(events@, i as int) matches Some(rest) ==> spec_groups(
                            events@,
                            0,
                        ) == Some(done + rest)),
                        (spec_groups(events@, i as int) is None ==> spec_groups(events@, 0)
                            is None),
                        logs@.len() == done.len(),
                        spec_all_groups_ok(done),
                        forall|g: int|
                            0 <= g < done.len() ==> spec_mjlog_matches(
                                #[trigger] logs@[g],
                                done[g],
                            ),
                    decreases events@.len() - j,
                {
                    if j >= events.len() {
                        return Err(MjlogError::UnexpectedEof);
                    }
                    match &events[j] {
                        RawEvent::Decl => {
                            j = j + 1;
                        }
                        RawEvent::DocType => {
                            j = j + 1;
                        }
                        RawEvent::Comment => {
                            j = j + 1;
                        }
                        RawEvent::PI => {
                            return Err(MjlogError::UnexpectedPI);
                        }
                        RawEvent::CData => {
                            return Err(MjlogError::UnexpectedCData);
                        }
                        RawEvent::Text => {
                            return Err(MjlogError::UnexpectedText);
                        }
                        RawEvent::TagStart(t2) => {
                            return Err(MjlogError::UnexpectedTag(t2.name.clone()));
                        }
                        RawEvent::TagEmpty(t2) => {
                            let ghost tg = *t2;
                            match conv_action(t2) {
                                Ok(a) => {
                                    actions.push(a);
                                    proof {
                                        assert(events@[j as int] == RawEvent::TagEmpty(tg));
                                        assert(!spec_skip_event(events@[j as int]));
                                        let old_tags = tags;
                                        tags = tags.push(tg);
                                        lemma_collect_group_bounds(events@, j + 1);
                                        let cg = spec_collect_group(events@, j + 1);
                                        if cg is Some {
                                            let p = cg->Some_0;
                                            assert(spec_collect_group(events@, j as int) == Some(
                                                (seq![tg] + p.0, p.1),
                                            ));
                                            assert(tags + p.0 =~= old_tags + (seq![tg] + p.0));
                                            let g2 = spec_groups(events@, p.1);
                                            if g2 is Some {
                                                let gs2 = g2->Some_0;
                                                assert(spec_groups(events@, 0) == Some(
                                                    done + seq![(ver_s, old_tags + (seq![tg] + p.0))]
                                                        + gs2,
                                                ));
                                                assert((ver_s, tags + p.0) == (
                                                    ver_s,
                                                    old_tags + (seq![tg] + p.0),
                                                ));
                                                assert(spec_groups(events@, 0) == Some(
                                                    done + seq![(ver_s, tags + p.0)] + gs2,
                                                ));
                                            } else {
                                                assert(spec_groups(events@, 0) is None);
                                            }
                                        } else {
                                            assert(spec_collect_group(events@, j as int) is None);
                                            assert(spec_groups(events@, 0) is None);
                                        }
                                    }
                                    j = j + 1;
                                }
                                Err(er) => {
                                    proof {
                                        assert(events@[j as int] == RawEvent::TagEmpty(tg));
                                        assert(!spec_skip_event(events@[j as int]));
                                        lemma_collect_group_bounds(events@, j as int);
                                        let cg = spec_collect_group(events@, j as int);
                                        if cg is Some {
                                            let p = cg->Some_0;
                                            let whole = tags + p.0;
                                            assert(p.0 == seq![tg] + spec_collect_group(
                                                events@,
                                                j + 1,
                                            )->Some_0.0);
                                            assert(whole[tags.len() as int] == tg);
                                            assert(!spec_group_actions_ok(whole));
                                            let g2 = spec_groups(events@, p.1);
                                            if g2 is Some {
                                                let gs2 = g2->Some_0;
                                                let all = done + seq![(ver_s, whole)] + gs2;
                                                assert(all[done.len() as int].1 == whole);
                                                assert(!spec_all_groups_ok(all));
                                            }
                                        }
                                    }
                                    return Err(er);
                                }
                            }
                        }
                        RawEvent::TagEnd(nm) => {
                            let is_end = nm.eq(&String::from_str("mjloggm"));
                            if is_end {
                                proof {
                                    assert(events@[j as int] == RawEvent::TagEnd(*nm));
                                    assert(!spec_skip_event(events@[j as int]));
                                    assert(spec_collect_group(events@, j as int) == Some(
                                        (Seq::<RawTag>::empty(), j + 1),
                                    ));
                                    assert(tags + Seq::<RawTag>::empty() =~= tags);
                                }
                                let ghost old_logs = logs@;
                                logs.push(Mjlog { ver, actions });
                                proof {
                                    let ghost old_done = done;
                                    done = done.push((ver_s, tags));
                                    assert(spec_mjlog_matches(logs@.last(), (ver_s, tags)));
                                    assert forall|g: int|
                                        0 <= g < done.len() implies spec_mjlog_matches(
                                        #[trigger] logs@[g],
                                        done[g],
                                    ) by {
                                        if g < done.len() - 1 {
                                            assert(logs@[g] == old_logs[g]);
                                            assert(done[g] == old_done[g]);
                                        } else {
                                            assert(logs@[g] == logs@.last());
                                            assert(done[g] == (ver_s, tags));
                                        }
                                    }
                                    assert(spec_all_groups_ok(done)) by {
                                        assert forall|g: int|
                                            0 <= g < done.len() implies spec_group_actions_ok(
                                            #[trigger] done[g].1,
                                        ) by {
                                            if g < done.len() - 1 {
                                                assert(done[g] == old_done[g]);
                                            } else {
                                                assert(done[g].1 == tags);
                                            }
                                        }
                                    }
                                    let g2 = spec_groups(events@, j + 1);
                                    if g2 is Some {
                                        let gs2 = g2->Some_0;
                                        assert(done.drop_last() + seq![(ver_s, tags)] + gs2 =~= done
                                            + gs2);
                                    }
                                }
                                i = j + 1;
                                break;
                            } else {
                                return Err(MjlogError::UnexpectedTag(nm.clone()));
                            }
                        }
                    }
                }
            }
        }
    }
}

/// The copy layout of a same-rank call, executably.
fn pon_slot(base: u8, off: u8, k: u8) -> (r: u8)
    requires
        base <= 42 * 4,
        off <= 3,
        k <= 3,
    ensures
        r == spec_pon_slot(base as int, off as int, k as int),
{
    if off == 3 {
        base + k
    } else if k == off {
        base + 3
    } else if k == 3 {
        base + off
    } else {
        base + k
    }
}

} // verus!
