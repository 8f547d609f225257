//! The data model of the compact attribute-based encoding: physical tile
//! ordinals, seats, packed call descriptors, and one record per logged
//! tag.
//!
//! Fields that the platform stores as free-form numeric text (the log
//! version, ratings, final results) are carried verbatim as text: the core
//! never reads them, and their numeric rendering is the document layer's
//! concern.

use vstd::prelude::*;

verus! {

/// A code had no corresponding identifier.
#[derive(Debug, PartialEq, Eq, Structural, Clone, Copy)]
pub enum ParseError {
    InvalidHaiNumber,
    InvalidPlayerNumber,
    InvalidTenhouRank,
    InvalidExtraRyuukyokuReason,
}

/// A physical tile, numbered 0 to 135: four copies of each of 34 ranks,
/// ordered ranks-within-suit then honors. When red fives are enabled, the
/// copy with ordinal mod 4 == 0 of each suited five (16, 52, 88) is the
/// red one.
#[derive(Debug, PartialEq, Eq, Structural, Clone, Copy)]
pub struct Hai(pub u8);

/// A seat index, 0 to 3.
#[derive(Debug, PartialEq, Eq, Structural, Clone, Copy)]
pub struct Player(pub u8);

pub type GamePoint = i32;

/// Whether an ordinal is a suited five (of any copy).
pub open spec fn spec_is_number5(h: Hai) -> bool {
    h.0 / 4 / 9 <= 2 && (h.0 / 4) % 9 + 1 == 5
}

impl Default for Hai {
    fn default() -> (r: Self)
        ensures
            r == Hai(0),
    {
        Hai(0)
    }
}

impl Hai {
    pub fn new(x: u8) -> (r: Hai)
        ensures
            r == Hai(x),
    {
        Hai(x)
    }

    pub fn to_u8(&self) -> (r: u8)
        ensures
            r == self.0,
    {
        self.0
    }

    /// Whether this ordinal is a suited five.
    pub fn is_number5(&self) -> (r: bool)
        ensures
            r == spec_is_number5(*self),
    {
        let pict_index = self.0 / 4;
        let pict_type = pict_index / 9;
        let number = (pict_index % 9) + 1;
        pict_type <= 2 && number == 5
    }
}

impl Default for Player {
    fn default() -> (r: Self)
        ensures
            r == Player(0),
    {
        Player(0)
    }
}

impl Player {
    pub fn new(x: u8) -> (r: Self)
        ensures
            r == Player(x),
    {
        Player(x)
    }

    pub fn to_u8(&self) -> (r: u8)
        ensures
            r == self.0,
    {
        self.0
    }
}

/// The relative direction of another seat, from the acting seat's view,
/// in this encoding's numbering: self, right, across, left.
#[derive(Debug, PartialEq, Eq, Structural, Clone, Copy)]
pub enum Direction {
    SelfSeat,
    Shimocha,
    Toimen,
    Kamicha,
}

impl Default for Direction {
    fn default() -> (r: Self)
        ensures
            r == Direction::SelfSeat,
    {
        Direction::SelfSeat
    }
}

pub open spec fn spec_direction_from_u8(x: u8) -> Option<Direction> {
    if x == 0 {
        Some(Direction::SelfSeat)
    } else if x == 1 {
        Some(Direction::Shimocha)
    } else if x == 2 {
        Some(Direction::Toimen)
    } else if x == 3 {
        Some(Direction::Kamicha)
    } else {
        None
    }
}

impl Direction {
    /// The variant that a numeric code selects, if any.
    pub fn from_u8(x: u8) -> (r: Option<Direction>)
        ensures
            r == spec_direction_from_u8(x),
    {
        match x {
            0 => Some(Direction::SelfSeat),
            1 => Some(Direction::Shimocha),
            2 => Some(Direction::Toimen),
            3 => Some(Direction::Kamicha),
            _ => None,
        }
    }
}

/// The room grade of the table.
#[derive(Debug, PartialEq, Eq, Structural, Clone, Copy)]
pub enum TenhouRoom {
    Ippan,
    Joukyu,
    Tokujou,
    Houou,
}

impl Default for TenhouRoom {
    fn default() -> (r: Self)
        ensures
            r == TenhouRoom::Ippan,
    {
        TenhouRoom::Ippan
    }
}

pub open spec fn spec_room_from_u8(x: u8) -> Option<TenhouRoom> {
    if x == 0 {
        Some(TenhouRoom::Ippan)
    } else if x == 1 {
        Some(TenhouRoom::Joukyu)
    } else if x == 2 {
        Some(TenhouRoom::Tokujou)
    } else if x == 3 {
        Some(TenhouRoom::Houou)
    } else {
        None
    }
}

impl TenhouRoom {
    /// The variant that a numeric code selects, if any.
    pub fn from_u8(x: u8) -> (r: Option<TenhouRoom>)
        ensures
            r == spec_room_from_u8(x),
    {
        match x {
            0 => Some(TenhouRoom::Ippan),
            1 => Some(TenhouRoom::Joukyu),
            2 => Some(TenhouRoom::Tokujou),
            3 => Some(TenhouRoom::Houou),
            _ => None,
        }
    }
}

/// A player grade on the platform.
#[derive(Debug, PartialEq, Eq, Structural, Clone, Copy)]
pub enum TenhouRank {
    Newcomer,
    Kyu9,
    Kyu8,
    Kyu7,
    Kyu6,
    Kyu5,
    Kyu4,
    Kyu3,
    Kyu2,
    Kyu1,
    Dan1,
    Dan2,
    Dan3,
    Dan4,
    Dan5,
    Dan6,
    Dan7,
    Dan8,
    Dan9,
    Dan10,
    Tenhou,
}

impl Default for TenhouRank {
    fn default() -> (r: Self)
        ensures
            r == TenhouRank::Newcomer,
    {
        TenhouRank::Newcomer
    }
}

pub open spec fn spec_rank_from_u8(x: u8) -> Option<TenhouRank> {
    if x == 0 {
        Some(TenhouRank::Newcomer)
    } else if x == 1 {
        Some(TenhouRank::Kyu9)
    } else if x == 2 {
        Some(TenhouRank::Kyu8)
    } else if x == 3 {
        Some(TenhouRank::Kyu7)
    } else if x == 4 {
        Some(TenhouRank::Kyu6)
    } else if x == 5 {
        Some(TenhouRank::Kyu5)
    } else if x == 6 {
        Some(TenhouRank::Kyu4)
    } else if x == 7 {
        Some(TenhouRank::Kyu3)
    } else if x == 8 {
        Some(TenhouRank::Kyu2)
    } else if x == 9 {
        Some(TenhouRank::Kyu1)
    } else if x == 10 {
        Some(TenhouRank::Dan1)
    } else if x == 11 {
        Some(TenhouRank::Dan2)
    } else if x == 12 {
        Some(TenhouRank::Dan3)
    } else if x == 13 {
        Some(TenhouRank::Dan4)
    } else if x == 14 {
        Some(TenhouRank::Dan5)
    } else if x == 15 {
        Some(TenhouRank::Dan6)
    } else if x == 16 {
        Some(TenhouRank::Dan7)
    } else if x == 17 {
        Some(TenhouRank::Dan8)
    } else if x == 18 {
        Some(TenhouRank::Dan9)
    } else if x == 19 {
        Some(TenhouRank::Dan10)
    } else if x == 20 {
        Some(TenhouRank::Tenhou)
    } else {
        None
    }
}

impl TenhouRank {
    /// The variant that a numeric code selects, if any.
    pub fn from_u8(x: u8) -> (r: Option<TenhouRank>)
        ensures
            r == spec_rank_from_u8(x),
    {
        match x {
            0 => Some(TenhouRank::Newcomer),
            1 => Some(TenhouRank::Kyu9),
            2 => Some(TenhouRank::Kyu8),
            3 => Some(TenhouRank::Kyu7),
            4 => Some(TenhouRank::Kyu6),
            5 => Some(TenhouRank::Kyu5),
            6 => Some(TenhouRank::Kyu4),
            7 => Some(TenhouRank::Kyu3),
            8 => Some(TenhouRank::Kyu2),
            9 => Some(TenhouRank::Kyu1),
            10 => Some(TenhouRank::Dan1),
            11 => Some(TenhouRank::Dan2),
            12 => Some(TenhouRank::Dan3),
            13 => Some(TenhouRank::Dan4),
            14 => Some(TenhouRank::Dan5),
            15 => Some(TenhouRank::Dan6),
            16 => Some(TenhouRank::Dan7),
            17 => Some(TenhouRank::Dan8),
            18 => Some(TenhouRank::Dan9),
            19 => Some(TenhouRank::Dan10),
            20 => Some(TenhouRank::Tenhou),
            _ => None,
        }
    }
}

/// The table settings of a match.
#[derive(Debug, PartialEq, Clone, Copy)]
pub struct GameSettings {
    pub vs_human: bool,
    pub no_red: bool,
    pub no_kuitan: bool,
    pub hanchan: bool,
    pub sanma: bool,
    pub soku: bool,
    pub room: TenhouRoom,
}

/// The initial settings of one round.
#[derive(Debug, PartialEq, Clone, Copy)]
pub struct InitSeed {
    pub kyoku: u8,
    pub honba: u8,
    pub kyoutaku: u8,
    pub dice: (u8, u8),
    pub dora_hyouji: Hai,
}

/// A call descriptor, over physical tile ordinals.
#[derive(Debug, PartialEq, Clone, Copy)]
pub enum Meld {
    Chii { combination: (Hai, Hai, Hai), called_position: u8 },
    Pon { dir: Direction, combination: (Hai, Hai, Hai), called: Hai, unused: Hai },
    Kakan { dir: Direction, combination: (Hai, Hai, Hai), called: Hai, added: Hai },
    Daiminkan { dir: Direction, hai: Hai },
    Ankan { hai: Hai },
}

impl Default for Meld {
    fn default() -> (r: Self)
        ensures
            r == (Meld::Ankan { hai: Hai(0) }),
    {
        Meld::Ankan { hai: Hai(0) }
    }
}

/// The reason of a special draw, in this encoding's vocabulary.
#[derive(Debug, PartialEq, Eq, Structural, Clone, Copy)]
pub enum ExtraRyuukyokuReason {
    KyuusyuKyuuhai,
    SuuchaRiichi,
    SanchaHoura,
    SuukanSanra,
    SuufuuRenda,
    NagashiMangan,
}

impl Default for ExtraRyuukyokuReason {
    fn default() -> (r: Self)
        ensures
            r == ExtraRyuukyokuReason::KyuusyuKyuuhai,
    {
        ExtraRyuukyokuReason::KyuusyuKyuuhai
    }
}

/// The word of each special draw reason in the log.
pub open spec fn spec_mj_reason_from_text(s: Seq<char>) -> Option<ExtraRyuukyokuReason> {
    if s == "yao9"@ {
        Some(ExtraRyuukyokuReason::KyuusyuKyuuhai)
    } else if s == "reach4"@ {
        Some(ExtraRyuukyokuReason::SuuchaRiichi)
    } else if s == "ron3"@ {
        Some(ExtraRyuukyokuReason::SanchaHoura)
    } else if s == "kan4"@ {
        Some(ExtraRyuukyokuReason::SuukanSanra)
    } else if s == "kaze4"@ {
        Some(ExtraRyuukyokuReason::SuufuuRenda)
    } else if s == "nm"@ {
        Some(ExtraRyuukyokuReason::NagashiMangan)
    } else {
        None
    }
}

impl ExtraRyuukyokuReason {
    /// The reason that a log word names, if any.
    pub fn from_text(s: &String) -> (r: Option<ExtraRyuukyokuReason>)
        ensures
            r == spec_mj_reason_from_text(s@),
    {
        if s.eq(&String::from_str("yao9")) {
            Some(ExtraRyuukyokuReason::KyuusyuKyuuhai)
        } else if s.eq(&String::from_str("reach4")) {
            Some(ExtraRyuukyokuReason::SuuchaRiichi)
        } else if s.eq(&String::from_str("ron3")) {
            Some(ExtraRyuukyokuReason::SanchaHoura)
        } else if s.eq(&String::from_str("kan4")) {
            Some(ExtraRyuukyokuReason::SuukanSanra)
        } else if s.eq(&String::from_str("kaze4")) {
            Some(ExtraRyuukyokuReason::SuufuuRenda)
        } else if s.eq(&String::from_str("nm")) {
            Some(ExtraRyuukyokuReason::NagashiMangan)
        } else {
            None
        }
    }
}

/// The tier of a winning hand, as the log numbers it.
#[derive(Debug, PartialEq, Eq, Structural, Clone, Copy)]
pub enum ScoreRank {
    Normal,
    Mangan,
    Haneman,
    Baiman,
    Sanbaiman,
    Yakuman,
}

impl Default for ScoreRank {
    fn default() -> (r: Self)
        ensures
            r == ScoreRank::Normal,
    {
        ScoreRank::Normal
    }
}

pub open spec fn spec_score_rank_from_u8(x: u8) -> Option<ScoreRank> {
    if x == 0 {
        Some(ScoreRank::Normal)
    } else if x == 1 {
        Some(ScoreRank::Mangan)
    } else if x == 2 {
        Some(ScoreRank::Haneman)
    } else if x == 3 {
        Some(ScoreRank::Baiman)
    } else if x == 4 {
        Some(ScoreRank::Sanbaiman)
    } else if x == 5 {
        Some(ScoreRank::Yakuman)
    } else {
        None
    }
}

impl ScoreRank {
    /// The variant that a numeric code selects, if any.
    pub fn from_u8(x: u8) -> (r: Option<ScoreRank>)
        ensures
            r == spec_score_rank_from_u8(x),
    {
        match x {
            0 => Some(ScoreRank::Normal),
            1 => Some(ScoreRank::Mangan),
            2 => Some(ScoreRank::Haneman),
            3 => Some(ScoreRank::Baiman),
            4 => Some(ScoreRank::Sanbaiman),
            5 => Some(ScoreRank::Yakuman),
            _ => None,
        }
    }
}

/// A yaku, in the log's numbering order.
#[derive(Debug, PartialEq, Eq, Structural, Clone, Copy)]
pub enum Yaku {
    MenzenTsumo,
    Riichi,
    Ippatsu,
    Chankan,
    Rinshankaihou,
    HaiteiTsumo,
    HouteiRon,
    Pinfu,
    Tanyao,
    Iipeikou,
    PlayerWindTon,
    PlayerWindNan,
    PlayerWindSha,
    PlayerWindPei,
    FieldWindTon,
    FieldWindNan,
    FieldWindSha,
    FieldWindPei,
    YakuhaiHaku,
    YakuhaiHatsu,
    YakuhaiChun,
    DoubleRiichi,
    Chiitoitsu,
    Chanta,
    Ikkitsuukan,
    SansyokuDoujun,
    SanshokuDoukou,
    Sankantsu,
    Toitoi,
    Sanannkou,
    Shousangen,
    Honroutou,
    Ryanpeikou,
    Junchan,
    Honiisou,
    Chiniisou,
    Renhou,
    Tenhou,
    Chiihou,
    Daisangen,
    Suuankou,
    SuuankouTanki,
    Tsuuiisou,
    Ryuuiisou,
    Chinroutou,
    Tyuurenpoutou,
    Tyuurenpoutou9,
    Kokushimusou,
    Kokushimusou13,
    Daisuushii,
    Syousuushii,
    Suukantsu,
    Dora,
    UraDora,
    AkaDora,
}

impl Default for Yaku {
    fn default() -> (r: Self)
        ensures
            r == Yaku::MenzenTsumo,
    {
        Yaku::MenzenTsumo
    }
}

pub open spec fn spec_yaku_from_u8(x: u8) -> Option<Yaku> {
    if x == 0 {
        Some(Yaku::MenzenTsumo)
    } else if x == 1 {
        Some(Yaku::Riichi)
    } else if x == 2 {
        Some(Yaku::Ippatsu)
    } else if x == 3 {
        Some(Yaku::Chankan)
    } else if x == 4 {
        Some(Yaku::Rinshankaihou)
    } else if x == 5 {
        Some(Yaku::HaiteiTsumo)
    } else if x == 6 {
        Some(Yaku::HouteiRon)
    } else if x == 7 {
        Some(Yaku::Pinfu)
    } else if x == 8 {
        Some(Yaku::Tanyao)
    } else if x == 9 {
        Some(Yaku::Iipeikou)
    } else if x == 10 {
        Some(Yaku::PlayerWindTon)
    } else if x == 11 {
        Some(Yaku::PlayerWindNan)
    } else if x == 12 {
        Some(Yaku::PlayerWindSha)
    } else if x == 13 {
        Some(Yaku::PlayerWindPei)
    } else if x == 14 {
        Some(Yaku::FieldWindTon)
    } else if x == 15 {
        Some(Yaku::FieldWindNan)
    } else if x == 16 {
        Some(Yaku::FieldWindSha)
    } else if x == 17 {
        Some(Yaku::FieldWindPei)
    } else if x == 18 {
        Some(Yaku::YakuhaiHaku)
    } else if x == 19 {
        Some(Yaku::YakuhaiHatsu)
    } else if x == 20 {
        Some(Yaku::YakuhaiChun)
    } else if x == 21 {
        Some(Yaku::DoubleRiichi)
    } else if x == 22 {
        Some(Yaku::Chiitoitsu)
    } else if x == 23 {
        Some(Yaku::Chanta)
    } else if x == 24 {
        Some(Yaku::Ikkitsuukan)
    } else if x == 25 {
        Some(Yaku::SansyokuDoujun)
    } else if x == 26 {
        Some(Yaku::SanshokuDoukou)
    } else if x == 27 {
        Some(Yaku::Sankantsu)
    } else if x == 28 {
        Some(Yaku::Toitoi)
    } else if x == 29 {
        Some(Yaku::Sanannkou)
    } else if x == 30 {
        Some(Yaku::Shousangen)
    } else if x == 31 {
        Some(Yaku::Honroutou)
    } else if x == 32 {
        Some(Yaku::Ryanpeikou)
    } else if x == 33 {
        Some(Yaku::Junchan)
    } else if x == 34 {
        Some(Yaku::Honiisou)
    } else if x == 35 {
        Some(Yaku::Chiniisou)
    } else if x == 36 {
        Some(Yaku::Renhou)
    } else if x == 37 {
        Some(Yaku::Tenhou)
    } else if x == 38 {
        Some(Yaku::Chiihou)
    } else if x == 39 {
        Some(Yaku::Daisangen)
    } else if x == 40 {
        Some(Yaku::Suuankou)
    } else if x == 41 {
        Some(Yaku::SuuankouTanki)
    } else if x == 42 {
        Some(Yaku::Tsuuiisou)
    } else if x == 43 {
        Some(Yaku::Ryuuiisou)
    } else if x == 44 {
        Some(Yaku::Chinroutou)
    } else if x == 45 {
        Some(Yaku::Tyuurenpoutou)
    } else if x == 46 {
        Some(Yaku::Tyuurenpoutou9)
    } else if x == 47 {
        Some(Yaku::Kokushimusou)
    } else if x == 48 {
        Some(Yaku::Kokushimusou13)
    } else if x == 49 {
        Some(Yaku::Daisuushii)
    } else if x == 50 {
        Some(Yaku::Syousuushii)
    } else if x == 51 {
        Some(Yaku::Suukantsu)
    } else if x == 52 {
        Some(Yaku::Dora)
    } else if x == 53 {
        Some(Yaku::UraDora)
    } else if x == 54 {
        Some(Yaku::AkaDora)
    } else {
        None
    }
}

impl Yaku {
    /// The variant that a numeric code selects, if any.
    pub fn from_u8(x: u8) -> (r: Option<Yaku>)
        ensures
            r == spec_yaku_from_u8(x),
    {
        match x {
            0 => Some(Yaku::MenzenTsumo),
            1 => Some(Yaku::Riichi),
            2 => Some(Yaku::Ippatsu),
            3 => Some(Yaku::Chankan),
            4 => Some(Yaku::Rinshankaihou),
            5 => Some(Yaku::HaiteiTsumo),
            6 => Some(Yaku::HouteiRon),
            7 => Some(Yaku::Pinfu),
            8 => Some(Yaku::Tanyao),
            9 => Some(Yaku::Iipeikou),
            10 => Some(Yaku::PlayerWindTon),
            11 => Some(Yaku::PlayerWindNan),
            12 => Some(Yaku::PlayerWindSha),
            13 => Some(Yaku::PlayerWindPei),
            14 => Some(Yaku::FieldWindTon),
            15 => Some(Yaku::FieldWindNan),
            16 => Some(Yaku::FieldWindSha),
            17 => Some(Yaku::FieldWindPei),
            18 => Some(Yaku::YakuhaiHaku),
            19 => Some(Yaku::YakuhaiHatsu),
            20 => Some(Yaku::YakuhaiChun),
            21 => Some(Yaku::DoubleRiichi),
            22 => Some(Yaku::Chiitoitsu),
            23 => Some(Yaku::Chanta),
            24 => Some(Yaku::Ikkitsuukan),
            25 => Some(Yaku::SansyokuDoujun),
            26 => Some(Yaku::SanshokuDoukou),
            27 => Some(Yaku::Sankantsu),
            28 => Some(Yaku::Toitoi),
            29 => Some(Yaku::Sanannkou),
            30 => Some(Yaku::Shousangen),
            31 => Some(Yaku::Honroutou),
            32 => Some(Yaku::Ryanpeikou),
            33 => Some(Yaku::Junchan),
            34 => Some(Yaku::Honiisou),
            35 => Some(Yaku::Chiniisou),
            36 => Some(Yaku::Renhou),
            37 => Some(Yaku::Tenhou),
            38 => Some(Yaku::Chiihou),
            39 => Some(Yaku::Daisangen),
            40 => Some(Yaku::Suuankou),
            41 => Some(Yaku::SuuankouTanki),
            42 => Some(Yaku::Tsuuiisou),
            43 => Some(Yaku::Ryuuiisou),
            44 => Some(Yaku::Chinroutou),
            45 => Some(Yaku::Tyuurenpoutou),
            46 => Some(Yaku::Tyuurenpoutou9),
            47 => Some(Yaku::Kokushimusou),
            48 => Some(Yaku::Kokushimusou13),
            49 => Some(Yaku::Daisuushii),
            50 => Some(Yaku::Syousuushii),
            51 => Some(Yaku::Suukantsu),
            52 => Some(Yaku::Dora),
            53 => Some(Yaku::UraDora),
            54 => Some(Yaku::AkaDora),
            _ => None,
        }
    }
}

/// The shuffle seed record.
#[derive(Debug, PartialEq, Clone)]
pub struct ActionSHUFFLE {
    pub seed: String,
}

/// The table-open record: ruleset flags and the lobby.
#[derive(Debug, PartialEq, Clone, Copy)]
pub struct ActionGO {
    pub settings: GameSettings,
    pub lobby: u32,
}

/// The roster record: four names with grades and ratings.
#[derive(Debug, PartialEq, Clone)]
pub struct ActionUN1 {
    pub names: Vec<String>,
    pub dan: Vec<TenhouRank>,
    pub rate: Vec<String>,
    pub sx: Vec<String>,
}

/// The reconnect record: one returning name.
#[derive(Debug, PartialEq, Clone)]
pub struct ActionUN2 {
    pub who: Player,
    pub name: String,
}

/// The seat-left record.
#[derive(Debug, PartialEq, Clone, Copy)]
pub struct ActionBYE {
    pub who: Player,
}

/// The match-start record: the first dealer.
#[derive(Debug, PartialEq, Clone, Copy)]
pub struct ActionTAIKYOKU {
    pub oya: Player,
}

/// The round-init record.
#[derive(Debug, PartialEq, Clone)]
pub struct ActionINIT {
    pub seed: InitSeed,
    pub ten: Vec<GamePoint>,
    pub oya: Player,
    pub hai: Vec<Vec<Hai>>,
}

/// The riichi record at declaration.
#[derive(Debug, PartialEq, Clone, Copy)]
pub struct ActionREACH1 {
    pub who: Player,
}

/// The riichi record once the declaring discard passed.
#[derive(Debug, PartialEq, Clone)]
pub struct ActionREACH2 {
    pub who: Player,
    pub ten: Vec<GamePoint>,
}

/// A call record.
#[derive(Debug, PartialEq, Clone, Copy)]
pub struct ActionN {
    pub who: Player,
    pub m: Meld,
}

/// A new dora indicator record.
#[derive(Debug, PartialEq, Clone, Copy)]
pub struct ActionDORA {
    pub hai: Hai,
}

/// A winning record.
#[derive(Debug, PartialEq, Clone)]
pub struct ActionAGARI {
    pub honba: u8,
    pub kyoutaku: u8,
    pub hai: Vec<Hai>,
    pub m: Vec<Meld>,
    pub machi: Hai,
    pub fu: u8,
    pub net_score: u32,
    pub score_rank: ScoreRank,
    pub yaku: Vec<(Yaku, u8)>,
    pub yakuman: Vec<Yaku>,
    pub dora_hai: Vec<Hai>,
    pub dora_hai_ura: Vec<Hai>,
    pub who: Player,
    pub from_who: Player,
    pub pao_who: Option<Player>,
    pub before_points: Vec<GamePoint>,
    pub delta_points: Vec<GamePoint>,
    pub owari: Option<(Vec<GamePoint>, Vec<String>)>,
}

/// A drawn-round record.
#[derive(Debug, PartialEq, Clone)]
pub struct ActionRYUUKYOKU {
    pub honba: u8,
    pub kyoutaku: u8,
    pub before_points: Vec<GamePoint>,
    pub delta_points: Vec<GamePoint>,
    pub hai0: Option<Vec<Hai>>,
    pub hai1: Option<Vec<Hai>>,
    pub hai2: Option<Vec<Hai>>,
    pub hai3: Option<Vec<Hai>>,
    pub reason: Option<ExtraRyuukyokuReason>,
    pub owari: Option<(Vec<GamePoint>, Vec<String>)>,
}

/// A draw-from-wall record.
#[derive(Debug, PartialEq, Clone, Copy)]
pub struct ActionDRAW {
    pub who: Player,
    pub hai: Hai,
}

/// A discard record.
#[derive(Debug, PartialEq, Clone, Copy)]
pub struct ActionDISCARD {
    pub who: Player,
    pub hai: Hai,
}

/// One logged record.
#[derive(Debug, PartialEq, Clone)]
pub enum Action {
    SHUFFLE(ActionSHUFFLE),
    GO(ActionGO),
    UN1(ActionUN1),
    UN2(ActionUN2),
    BYE(ActionBYE),
    TAIKYOKU(ActionTAIKYOKU),
    INIT(ActionINIT),
    REACH1(ActionREACH1),
    REACH2(ActionREACH2),
    N(ActionN),
    DORA(ActionDORA),
    AGARI(ActionAGARI),
    RYUUKYOKU(ActionRYUUKYOKU),
    DRAW(ActionDRAW),
    DISCARD(ActionDISCARD),
}

/// A whole match log.
#[derive(Debug, PartialEq, Clone)]
pub struct Mjlog {
    pub ver: String,
    pub actions: Vec<Action>,
}

impl ActionAGARI {
    /// Whether the win was by self-draw: winner and payer coincide.
    pub fn is_tsumo(&self) -> (r: bool)
        ensures
            r == (self.who == self.from_who),
    {
        self.who == self.from_who
    }
}

impl Action {
    pub fn as_shuffle(&self) -> (r: Option<&ActionSHUFFLE>)
        ensures
            (r is Some <==> *self matches Action::SHUFFLE(..)),
            (r matches Some(v) ==> *self == Action::SHUFFLE(*v)),
    {
        match self {
            Action::SHUFFLE(x) => Some(x),
            _ => None,
        }
    }

    pub fn as_go(&self) -> (r: Option<&ActionGO>)
        ensures
            (r is Some <==> *self matches Action::GO(..)),
            (r matches Some(v) ==> *self == Action::GO(*v)),
    {
        match self {
            Action::GO(x) => Some(x),
            _ => None,
        }
    }

    pub fn as_un1(&self) -> (r: Option<&ActionUN1>)
        ensures
            (r is Some <==> *self matches Action::UN1(..)),
            (r matches Some(v) ==> *self == Action::UN1(*v)),
    {
        match self {
            Action::UN1(x) => Some(x),
            _ => None,
        }
    }

    pub fn as_un2(&self) -> (r: Option<&ActionUN2>)
        ensures
            (r is Some <==> *self matches Action::UN2(..)),
            (r matches Some(v) ==> *self == Action::UN2(*v)),
    {
        match self {
            Action::UN2(x) => Some(x),
            _ => None,
        }
    }

    pub fn as_bye(&self) -> (r: Option<&ActionBYE>)
        ensures
            (r is Some <==> *self matches Action::BYE(..)),
            (r matches Some(v) ==> *self == Action::BYE(*v)),
    {
        match self {
            Action::BYE(x) => Some(x),
            _ => None,
        }
    }

    pub fn as_taikyoku(&self) -> (r: Option<&ActionTAIKYOKU>)
        ensures
            (r is Some <==> *self matches Action::TAIKYOKU(..)),
            (r matches Some(v) ==> *self == Action::TAIKYOKU(*v)),
    {
        match self {
            Action::TAIKYOKU(x) => Some(x),
            _ => None,
        }
    }

    pub fn as_init(&self) -> (r: Option<&ActionINIT>)
        ensures
            (r is Some <==> *self matches Action::INIT(..)),
            (r matches Some(v) ==> *self == Action::INIT(*v)),
    {
        match self {
            Action::INIT(x) => Some(x),
            _ => None,
        }
    }

    pub fn as_reach1(&self) -> (r: Option<&ActionREACH1>)
        ensures
            (r is Some <==> *self matches Action::REACH1(..)),
            (r matches Some(v) ==> *self == Action::REACH1(*v)),
    {
        match self {
            Action::REACH1(x) => Some(x),
            _ => None,
        }
    }

    pub fn as_reach2(&self) -> (r: Option<&ActionREACH2>)
        ensures
            (r is Some <==> *self matches Action::REACH2(..)),
            (r matches Some(v) ==> *self == Action::REACH2(*v)),
    {
        match self {
            Action::REACH2(x) => Some(x),
            _ => None,
        }
    }

    pub fn as_n(&self) -> (r: Option<&ActionN>)
        ensures
            (r is Some <==> *self matches Action::N(..)),
            (r matches Some(v) ==> *self == Action::N(*v)),
    {
        match self {
            Action::N(x) => Some(x),
            _ => None,
        }
    }

    pub fn as_dora(&self) -> (r: Option<&ActionDORA>)
        ensures
            (r is Some <==> *self matches Action::DORA(..)),
            (r matches Some(v) ==> *self == Action::DORA(*v)),
    {
        match self {
            Action::DORA(x) => Some(x),
            _ => None,
        }
    }

    pub fn as_agari(&self) -> (r: Option<&ActionAGARI>)
        ensures
            (r is Some <==> *self matches Action::AGARI(..)),
            (r matches Some(v) ==> *self == Action::AGARI(*v)),
    {
        match self {
            Action::AGARI(x) => Some(x),
            _ => None,
        }
    }

    pub fn as_ryuukyoku(&self) -> (r: Option<&ActionRYUUKYOKU>)
        ensures
            (r is Some <==> *self matches Action::RYUUKYOKU(..)),
            (r matches Some(v) ==> *self == Action::RYUUKYOKU(*v)),
    {
        match self {
            Action::RYUUKYOKU(x) => Some(x),
            _ => None,
        }
    }

    pub fn as_draw(&self) -> (r: Option<&ActionDRAW>)
        ensures
            (r is Some <==> *self matches Action::DRAW(..)),
            (r matches Some(v) ==> *self == Action::DRAW(*v)),
    {
        match self {
            Action::DRAW(x) => Some(x),
            _ => None,
        }
    }

    pub fn as_discard(&self) -> (r: Option<&ActionDISCARD>)
        ensures
            (r is Some <==> *self matches Action::DISCARD(..)),
            (r matches Some(v) ==> *self == Action::DISCARD(*v)),
    {
        match self {
            Action::DISCARD(x) => Some(x),
            _ => None,
        }
    }

    pub fn is_shuffle(&self) -> (r: bool)
        ensures
            r == (*self matches Action::SHUFFLE(..)),
    {
        self.as_shuffle().is_some()
    }

    pub fn is_go(&self) -> (r: bool)
        ensures
            r == (*self matches Action::GO(..)),
    {
        self.as_go().is_some()
    }

    pub fn is_un1(&self) -> (r: bool)
        ensures
            r == (*self matches Action::UN1(..)),
    {
        self.as_un1().is_some()
    }

    pub fn is_un2(&self) -> (r: bool)
        ensures
            r == (*self matches Action::UN2(..)),
    {
        self.as_un2().is_some()
    }

    pub fn is_bye(&self) -> (r: bool)
        ensures
            r == (*self matches Action::BYE(..)),
    {
        self.as_bye().is_some()
    }

    pub fn is_taikyoku(&self) -> (r: bool)
        ensures
            r == (*self matches Action::TAIKYOKU(..)),
    {
        self.as_taikyoku().is_some()
    }

    pub fn is_init(&self) -> (r: bool)
        ensures
            r == (*self matches Action::INIT(..)),
    {
        self.as_init().is_some()
    }

    pub fn is_reach1(&self) -> (r: bool)
        ensures
            r == (*self matches Action::REACH1(..)),
    {
        self.as_reach1().is_some()
    }

    pub fn is_reach2(&self) -> (r: bool)
        ensures
            r == (*self matches Action::REACH2(..)),
    {
        self.as_reach2().is_some()
    }

    pub fn is_n(&self) -> (r: bool)
        ensures
            r == (*self matches Action::N(..)),
    {
        self.as_n().is_some()
    }

    pub fn is_dora(&self) -> (r: bool)
        ensures
            r == (*self matches Action::DORA(..)),
    {
        self.as_dora().is_some()
    }

    pub fn is_agari(&self) -> (r: bool)
        ensures
            r == (*self matches Action::AGARI(..)),
    {
        self.as_agari().is_some()
    }

    pub fn is_ryuukyoku(&self) -> (r: bool)
        ensures
            r == (*self matches Action::RYUUKYOKU(..)),
    {
        self.as_ryuukyoku().is_some()
    }

    pub fn is_draw(&self) -> (r: bool)
        ensures
            r == (*self matches Action::DRAW(..)),
    {
        self.as_draw().is_some()
    }

    pub fn is_discard(&self) -> (r: bool)
        ensures
            r == (*self matches Action::DISCARD(..)),
    {
        self.as_discard().is_some()
    }

}

} // verus!
