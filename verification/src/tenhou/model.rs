//! The data model of the array-based text encoding: tiles as two-digit
//! codes, directions, incoming and outgoing stream entries, rounds and the
//! whole match record.
//!
//! Fields that the platform stores as free-form numeric text (version,
//! ratings, final results) are carried verbatim as text: the core never
//! reads them, and their numeric rendering is the document layer's concern.

use crate::tenhou::score::RankedScore;
use vstd::prelude::*;

verus! {

pub type GamePoint = i32;

/// A tile code was outside the valid domain.
pub struct InvalidTileNumberError;

/// A yaku text did not follow the `name(level)` shape.
pub struct InvalidYakuFormatError;

/// A draw reason text was not one of the known reason words.
pub struct InvalidExtraRyuukyokuReasonError;

/// A tile, as its two-digit code: 11–19, 21–29 and 31–39 are the suited
/// ranks, 41–47 the honors, and 51/52/53 the dedicated red five codes.
#[derive(Debug, PartialEq, Eq, Structural, Clone, Copy)]
pub struct Tile(pub u8);

/// The valid two-digit tile codes.
pub open spec fn spec_valid_tile(x: u8) -> bool {
    ||| 11 <= x <= 19
    ||| 21 <= x <= 29
    ||| 31 <= x <= 39
    ||| 41 <= x <= 47
    ||| 51 <= x <= 53
}

/// Whether a two-digit code lies in the valid tile domain.
pub fn is_valid_tile(x: u8) -> (r: bool)
    ensures
        r == spec_valid_tile(x),
{
    (11 <= x && x <= 19) || (21 <= x && x <= 29) || (31 <= x && x <= 39) || (41 <= x && x <= 47)
        || (51 <= x && x <= 53)
}

impl Default for Tile {
    fn default() -> (r: Self)
        ensures
            r == Tile(0),
    {
        Tile(0)
    }
}

impl Tile {
    /// Accepts exactly the valid two-digit codes.
    pub fn from_u8(x: u8) -> (r: Result<Self, InvalidTileNumberError>)
        ensures
            spec_valid_tile(x) ==> (r matches Ok(t) && t == Tile(x)),
            !spec_valid_tile(x) ==> r is Err,
    {
        if is_valid_tile(x) {
            Ok(Tile(x))
        } else {
            Err(InvalidTileNumberError)
        }
    }

    pub fn to_u8(&self) -> (r: u8)
        ensures
            r == self.0,
    {
        self.0
    }

    /// Whether this is one of the three dedicated red five codes.
    pub fn is_red(&self) -> (r: bool)
        ensures
            r == (self.0 == 51 || self.0 == 52 || self.0 == 53),
    {
        self.0 == 51 || self.0 == 52 || self.0 == 53
    }

    /// The black five of the same suit for a red five; any other tile
    /// unchanged.
    pub fn to_black(&self) -> (r: Tile)
        ensures
            r == spec_to_black(*self),
    {
        match self.0 {
            51 => Tile(15),
            52 => Tile(25),
            53 => Tile(35),
            _ => *self,
        }
    }

    /// The red five of the same suit for a black five; any other tile
    /// unchanged.
    pub fn to_red(&self) -> (r: Tile)
        ensures
            r == spec_to_red(*self),
    {
        match self.0 {
            15 => Tile(51),
            25 => Tile(52),
            35 => Tile(53),
            _ => *self,
        }
    }
}

pub open spec fn spec_to_black(t: Tile) -> Tile {
    if t.0 == 51 {
        Tile(15)
    } else if t.0 == 52 {
        Tile(25)
    } else if t.0 == 53 {
        Tile(35)
    } else {
        t
    }
}

pub open spec fn spec_to_red(t: Tile) -> Tile {
    if t.0 == 15 {
        Tile(51)
    } else if t.0 == 25 {
        Tile(52)
    } else if t.0 == 35 {
        Tile(53)
    } else {
        t
    }
}

/// Red/black normalization are mutual inverses on the valid domain.
pub proof fn lemma_red_black_inverse(t: Tile)
    requires
        spec_valid_tile(t.0),
    ensures
        spec_to_red(spec_to_black(t)) == if t.0 == 15 || t.0 == 25 || t.0 == 35 {
            spec_to_red(t)
        } else {
            t
        },
        spec_to_black(spec_to_red(t)) == if t.0 == 51 || t.0 == 52 || t.0 == 53 {
            spec_to_black(t)
        } else {
            t
        },
{
}

/// The relative direction of another seat, from the acting seat's view.
#[derive(Debug, PartialEq, Eq, Structural, Clone, Copy)]
pub enum Direction {
    SelfSeat,
    Kamicha,
    Toimen,
    Shimocha,
}

impl Default for Direction {
    fn default() -> (r: Self)
        ensures
            r == Direction::SelfSeat,
    {
        Direction::SelfSeat
    }
}

/// A tile obtained by self-draw or by a call.
#[derive(Debug, PartialEq)]
pub enum IncomingTile {
    Tsumo(Tile),
    Chii { combination: (Tile, Tile, Tile) },
    Pon { combination: (Tile, Tile, Tile), dir: Direction },
    Daiminkan { combination: (Tile, Tile, Tile, Tile), dir: Direction },
}

/// A tile leaving the hand: a discard, a riichi discard, a closed or
/// added kan, a drawn-tile discard, or the filler placeholder that keeps
/// the two streams index-aligned across a daiminkan.
#[derive(Debug, PartialEq)]
pub enum OutgoingTile {
    Discard(Tile),
    Riichi(Tile),
    Ankan(Tile),
    Kakan { combination: (Tile, Tile, Tile), dir: Direction, added: Tile },
    Tsumogiri,
    TsumogiriRiichi,
    Dummy,
}

/// The initial settings of one round.
#[derive(Debug, PartialEq)]
pub struct RoundSettings {
    pub kyoku: u8,
    pub honba: u8,
    pub kyoutaku: u8,
    pub points: Vec<GamePoint>,
    pub dora: Vec<Tile>,
    pub ura_dora: Vec<Tile>,
}

/// The han count of a yaku, or the multiplicity of a yakuman.
#[derive(Debug, PartialEq, Eq, Structural, Clone, Copy)]
pub enum YakuLevel {
    Normal(u8),
    Yakuman(u8),
}

impl YakuLevel {
    pub fn get_number(&self) -> (r: u8)
        ensures
            r == spec_level_number(*self),
    {
        match self {
            YakuLevel::Normal(x) => *x,
            YakuLevel::Yakuman(x) => *x,
        }
    }
}

pub open spec fn spec_level_number(l: YakuLevel) -> u8 {
    match l {
        YakuLevel::Normal(x) => x,
        YakuLevel::Yakuman(x) => x,
    }
}

/// A yaku with its level.
#[derive(Debug, PartialEq, Eq, Structural, Clone, Copy)]
pub struct YakuPair {
    pub yaku: Yaku,
    pub level: YakuLevel,
}

/// One player's winning record.
#[derive(Debug, PartialEq)]
pub struct Agari {
    pub delta_points: Vec<GamePoint>,
    pub who: u8,
    pub from_who: u8,
    pub pao_who: u8,
    pub ranked_score: RankedScore,
    pub yaku: Vec<YakuPair>,
}

/// The reason a round ended with no winner.
#[derive(Debug, PartialEq, Eq, Structural, Clone, Copy)]
pub enum ExtraRyuukyokuReason {
    Ryuukyoku,
    KyuusyuKyuuhai,
    SuuchaRiichi,
    SanchaHoura,
    SuukanSanra,
    SuufuuRenda,
    NagashiMangan,
    TenpaiEverybody,
    TenpaiNobody,
}

impl Default for ExtraRyuukyokuReason {
    fn default() -> (r: Self)
        ensures
            r == ExtraRyuukyokuReason::Ryuukyoku,
    {
        ExtraRyuukyokuReason::Ryuukyoku
    }
}

/// The outcome of a round: one or more winning records, or a draw.
#[derive(Debug, PartialEq)]
pub enum RoundResult {
    Agari { agari_vec: Vec<Agari> },
    Ryuukyoku { reason: ExtraRyuukyokuReason, delta_points: Vec<GamePoint> },
}

/// The rules of the whole match.
#[derive(Debug, PartialEq)]
pub struct Rule {
    pub disp: String,
    pub aka53: bool,
    pub aka52: bool,
    pub aka51: bool,
}

/// One player's reconstruction within a round: the sorted starting hand
/// and the two directional streams.
#[derive(Debug, PartialEq)]
pub struct RoundPlayer {
    pub hand: Vec<Tile>,
    pub incoming: Vec<IncomingTile>,
    pub outgoing: Vec<OutgoingTile>,
}

/// One round: its settings, the four player reconstructions, and the
/// outcome.
#[derive(Debug, PartialEq)]
pub struct Round {
    pub settings: RoundSettings,
    pub players: Vec<RoundPlayer>,
    pub result: RoundResult,
}

/// A connection event: a disconnect or reconnect, placed by round index
/// and step counter.
#[derive(Debug, PartialEq, Eq, Structural, Clone, Copy)]
pub struct Connection {
    pub what: u8,
    pub log: i8,
    pub who: u8,
    pub step: u32,
}

/// A whole match record in the array-based text encoding.
#[derive(Debug, PartialEq)]
pub struct TenhouJson {
    pub ver: String,
    pub reference: String,
    pub rounds: Vec<Round>,
    pub connections: Vec<Connection>,
    pub ratingc: String,
    pub rule: Rule,
    pub lobby: u32,
    pub dan: Vec<String>,
    pub rate: Vec<String>,
    pub sx: Vec<String>,
    pub final_points: Vec<GamePoint>,
    pub final_results: Vec<String>,
    pub names: Vec<String>,
}

/// A yaku, in the platform's numbering order.
#[derive(Debug, PartialEq, Eq, Structural, Clone, Copy)]
pub enum Yaku {
    MenzenTsumo,
    Riichi,
    Ippatsu,
    Chankan,
    Rinshankaihou,
    HaiteiTsumo,
    HouteiRon,
    Pinfu,
    Tanyao,
    Iipeikou,
    PlayerWindTon,
    PlayerWindNan,
    PlayerWindSha,
    PlayerWindPei,
    FieldWindTon,
    FieldWindNan,
    FieldWindSha,
    FieldWindPei,
    YakuhaiHaku,
    YakuhaiHatsu,
    YakuhaiChun,
    DoubleRiichi,
    Chiitoitsu,
    Chanta,
    Ikkitsuukan,
    SansyokuDoujun,
    SanshokuDoukou,
    Sankantsu,
    Toitoi,
    Sanannkou,
    Shousangen,
    Honroutou,
    Ryanpeikou,
    Junchan,
    Honiisou,
    Chiniisou,
    Renhou,
    Tenhou,
    Chiihou,
    Daisangen,
    Suuankou,
    SuuankouTanki,
    Tsuuiisou,
    Ryuuiisou,
    Chinroutou,
    Tyuurenpoutou,
    Tyuurenpoutou9,
    Kokushimusou,
    Kokushimusou13,
    Daisuushii,
    Syousuushii,
    Suukantsu,
    Dora,
    UraDora,
    AkaDora,
}

impl Default for Yaku {
    fn default() -> (r: Self)
        ensures
            r == Yaku::MenzenTsumo,
    {
        Yaku::MenzenTsumo
    }
}

/// The display name of each yaku.
pub open spec fn spec_yaku_text(y: Yaku) -> Seq<char> {
    match y {
        Yaku::MenzenTsumo => "門前清自摸和"@,
        Yaku::Riichi => "立直"@,
        Yaku::Ippatsu => "一発"@,
        Yaku::Chankan => "槍槓"@,
        Yaku::Rinshankaihou => "嶺上開花"@,
        Yaku::HaiteiTsumo => "海底摸月"@,
        Yaku::HouteiRon => "河底撈魚"@,
        Yaku::Pinfu => "平和"@,
        Yaku::Tanyao => "断幺九"@,
        Yaku::Iipeikou => "一盃口"@,
        Yaku::PlayerWindTon => "自風 東"@,
        Yaku::PlayerWindNan => "自風 南"@,
        Yaku::PlayerWindSha => "自風 西"@,
        Yaku::PlayerWindPei => "自風 北"@,
        Yaku::FieldWindTon => "場風 東"@,
        Yaku::FieldWindNan => "場風 南"@,
        Yaku::FieldWindSha => "場風 西"@,
        Yaku::FieldWindPei => "場風 北"@,
        Yaku::YakuhaiHaku => "役牌 白"@,
        Yaku::YakuhaiHatsu => "役牌 發"@,
        Yaku::YakuhaiChun => "役牌 中"@,
        Yaku::DoubleRiichi => "両立直"@,
        Yaku::Chiitoitsu => "七対子"@,
        Yaku::Chanta => "混全帯幺九"@,
        Yaku::Ikkitsuukan => "一気通貫"@,
        Yaku::SansyokuDoujun => "三色同順"@,
        Yaku::SanshokuDoukou => "三色同刻"@,
        Yaku::Sankantsu => "三槓子"@,
        Yaku::Toitoi => "対々和"@,
        Yaku::Sanannkou => "三暗刻"@,
        Yaku::Shousangen => "小三元"@,
        Yaku::Honroutou => "混老頭"@,
        Yaku::Ryanpeikou => "二盃口"@,
        Yaku::Junchan => "純全帯幺九"@,
        Yaku::Honiisou => "混一色"@,
        Yaku::Chiniisou => "清一色"@,
        Yaku::Renhou => "人和"@,
        Yaku::Tenhou => "天和"@,
        Yaku::Chiihou => "地和"@,
        Yaku::Daisangen => "大三元"@,
        Yaku::Suuankou => "四暗刻"@,
        Yaku::SuuankouTanki => "四暗刻単騎"@,
        Yaku::Tsuuiisou => "字一色"@,
        Yaku::Ryuuiisou => "緑一色"@,
        Yaku::Chinroutou => "清老頭"@,
        Yaku::Tyuurenpoutou => "九蓮宝燈"@,
        Yaku::Tyuurenpoutou9 => "純正九蓮宝燈"@,
        Yaku::Kokushimusou => "国士無双"@,
        Yaku::Kokushimusou13 => "国士無双１３面"@,
        Yaku::Daisuushii => "大四喜"@,
        Yaku::Syousuushii => "小四喜"@,
        Yaku::Suukantsu => "四槓子"@,
        Yaku::Dora => "ドラ"@,
        Yaku::UraDora => "裏ドラ"@,
        Yaku::AkaDora => "赤ドラ"@,
    }
}

impl Yaku {
    /// The display name of this yaku.
    pub fn to_str(&self) -> (r: &'static str)
        ensures
            r@ == spec_yaku_text(*self),
    {
        match self {
            Yaku::MenzenTsumo => "門前清自摸和",
            Yaku::Riichi => "立直",
            Yaku::Ippatsu => "一発",
            Yaku::Chankan => "槍槓",
            Yaku::Rinshankaihou => "嶺上開花",
            Yaku::HaiteiTsumo => "海底摸月",
            Yaku::HouteiRon => "河底撈魚",
            Yaku::Pinfu => "平和",
            Yaku::Tanyao => "断幺九",
            Yaku::Iipeikou => "一盃口",
            Yaku::PlayerWindTon => "自風 東",
            Yaku::PlayerWindNan => "自風 南",
            Yaku::PlayerWindSha => "自風 西",
            Yaku::PlayerWindPei => "自風 北",
            Yaku::FieldWindTon => "場風 東",
            Yaku::FieldWindNan => "場風 南",
            Yaku::FieldWindSha => "場風 西",
            Yaku::FieldWindPei => "場風 北",
            Yaku::YakuhaiHaku => "役牌 白",
            Yaku::YakuhaiHatsu => "役牌 發",
            Yaku::YakuhaiChun => "役牌 中",
            Yaku::DoubleRiichi => "両立直",
            Yaku::Chiitoitsu => "七対子",
            Yaku::Chanta => "混全帯幺九",
            Yaku::Ikkitsuukan => "一気通貫",
            Yaku::SansyokuDoujun => "三色同順",
            Yaku::SanshokuDoukou => "三色同刻",
            Yaku::Sankantsu => "三槓子",
            Yaku::Toitoi => "対々和",
            Yaku::Sanannkou => "三暗刻",
            Yaku::Shousangen => "小三元",
            Yaku::Honroutou => "混老頭",
            Yaku::Ryanpeikou => "二盃口",
            Yaku::Junchan => "純全帯幺九",
            Yaku::Honiisou => "混一色",
            Yaku::Chiniisou => "清一色",
            Yaku::Renhou => "人和",
            Yaku::Tenhou => "天和",
            Yaku::Chiihou => "地和",
            Yaku::Daisangen => "大三元",
            Yaku::Suuankou => "四暗刻",
            Yaku::SuuankouTanki => "四暗刻単騎",
            Yaku::Tsuuiisou => "字一色",
            Yaku::Ryuuiisou => "緑一色",
            Yaku::Chinroutou => "清老頭",
            Yaku::Tyuurenpoutou => "九蓮宝燈",
            Yaku::Tyuurenpoutou9 => "純正九蓮宝燈",
            Yaku::Kokushimusou => "国士無双",
            Yaku::Kokushimusou13 => "国士無双１３面",
            Yaku::Daisuushii => "大四喜",
            Yaku::Syousuushii => "小四喜",
            Yaku::Suukantsu => "四槓子",
            Yaku::Dora => "ドラ",
            Yaku::UraDora => "裏ドラ",
            Yaku::AkaDora => "赤ドラ",
        }
    }
}

/// The display word of each draw reason.
pub open spec fn spec_reason_text(x: ExtraRyuukyokuReason) -> Seq<char> {
    match x {
        ExtraRyuukyokuReason::Ryuukyoku => "流局"@,
        ExtraRyuukyokuReason::KyuusyuKyuuhai => "九種九牌"@,
        ExtraRyuukyokuReason::SuuchaRiichi => "四家立直"@,
        ExtraRyuukyokuReason::SanchaHoura => "三家和了"@,
        ExtraRyuukyokuReason::SuukanSanra => "四槓散了"@,
        ExtraRyuukyokuReason::SuufuuRenda => "四風連打"@,
        ExtraRyuukyokuReason::NagashiMangan => "流し満貫"@,
        ExtraRyuukyokuReason::TenpaiEverybody => "全員聴牌"@,
        ExtraRyuukyokuReason::TenpaiNobody => "全員不聴"@,
    }
}

impl ExtraRyuukyokuReason {
    /// The display word of this draw reason.
    pub fn to_str(&self) -> (r: &'static str)
        ensures
            r@ == spec_reason_text(*self),
    {
        match self {
            ExtraRyuukyokuReason::Ryuukyoku => "流局",
            ExtraRyuukyokuReason::KyuusyuKyuuhai => "九種九牌",
            ExtraRyuukyokuReason::SuuchaRiichi => "四家立直",
            ExtraRyuukyokuReason::SanchaHoura => "三家和了",
            ExtraRyuukyokuReason::SuukanSanra => "四槓散了",
            ExtraRyuukyokuReason::SuufuuRenda => "四風連打",
            ExtraRyuukyokuReason::NagashiMangan => "流し満貫",
            ExtraRyuukyokuReason::TenpaiEverybody => "全員聴牌",
            ExtraRyuukyokuReason::TenpaiNobody => "全員不聴",
        }
    }
}

} // verus!
