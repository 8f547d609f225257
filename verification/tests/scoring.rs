use mjlog2json::tenhou::calc::{
    get_ko_ron, get_ko_tsumo, get_ko_tsumo_yakuman, get_oya_ron_yakuman, get_oya_tsumo,
    get_oya_tsumo_yakuman,
};
use mjlog2json::tenhou::score::{parse_exact_ranked_score, RankedScore, Score, ScoreRank};

#[test]
fn test_ko_ron_scores() {
    // Since all hands except pinfu tsumo are rounded up to 30 fu, there is no case where a ron results in 20 fu.
    assert_eq!(get_ko_ron(30, 1), RankedScore { rank: ScoreRank::Normal { fu: 30, han: 1 }, score: Score::Ron(1000) }); // Note: naki tanyao only / pinfu only
    assert_eq!(get_ko_ron(30, 2), RankedScore { rank: ScoreRank::Normal { fu: 30, han: 2 }, score: Score::Ron(2000) });
    assert_eq!(get_ko_ron(30, 3), RankedScore { rank: ScoreRank::Normal { fu: 30, han: 3 }, score: Score::Ron(3900) });
    assert_eq!(get_ko_ron(30, 4), RankedScore { rank: ScoreRank::Normal { fu: 30, han: 4 }, score: Score::Ron(7700) });
    assert_eq!(get_ko_ron(30, 5), RankedScore { rank: ScoreRank::Mangan, score: Score::Ron(8000) });
    assert_eq!(get_ko_ron(30, 6), RankedScore { rank: ScoreRank::Haneman, score: Score::Ron(12000) });
    assert_eq!(get_ko_ron(40, 1), RankedScore { rank: ScoreRank::Normal { fu: 40, han: 1 }, score: Score::Ron(1300) });
    assert_eq!(get_ko_ron(40, 2), RankedScore { rank: ScoreRank::Normal { fu: 40, han: 2 }, score: Score::Ron(2600) });
    assert_eq!(get_ko_ron(40, 3), RankedScore { rank: ScoreRank::Normal { fu: 40, han: 3 }, score: Score::Ron(5200) });
    assert_eq!(get_ko_ron(40, 4), RankedScore { rank: ScoreRank::Mangan, score: Score::Ron(8000) });
    assert_eq!(get_ko_ron(40, 5), RankedScore { rank: ScoreRank::Mangan, score: Score::Ron(8000) });
    assert_eq!(get_ko_ron(40, 6), RankedScore { rank: ScoreRank::Haneman, score: Score::Ron(12000) });
    assert_eq!(get_ko_ron(25, 1), RankedScore { rank: ScoreRank::Normal { fu: 25, han: 1 }, score: Score::Ron(800) }); // Note: doesn't actually exist
    assert_eq!(get_ko_ron(25, 2), RankedScore { rank: ScoreRank::Normal { fu: 25, han: 2 }, score: Score::Ron(1600) });
    assert_eq!(get_ko_ron(25, 3), RankedScore { rank: ScoreRank::Normal { fu: 25, han: 3 }, score: Score::Ron(3200) });
    assert_eq!(get_ko_ron(25, 4), RankedScore { rank: ScoreRank::Normal { fu: 25, han: 4 }, score: Score::Ron(6400) });
    assert_eq!(get_ko_ron(25, 5), RankedScore { rank: ScoreRank::Mangan, score: Score::Ron(8000) });
    assert_eq!(get_ko_ron(25, 6), RankedScore { rank: ScoreRank::Haneman, score: Score::Ron(12000) });
}

#[test]
fn test_ko_tsumo_scores() {
    assert_eq!(get_ko_tsumo(20, 1), RankedScore { rank: ScoreRank::Normal { fu: 20, han: 1 }, score: Score::KoTsumo(200, 400) }); // Note: doesn't actually exist
    assert_eq!(get_ko_tsumo(20, 2), RankedScore { rank: ScoreRank::Normal { fu: 20, han: 2 }, score: Score::KoTsumo(400, 700) }); // Note: pinfu tsumo
    assert_eq!(get_ko_tsumo(20, 3), RankedScore { rank: ScoreRank::Normal { fu: 20, han: 3 }, score: Score::KoTsumo(700, 1300) });
    assert_eq!(get_ko_tsumo(20, 4), RankedScore { rank: ScoreRank::Normal { fu: 20, han: 4 }, score: Score::KoTsumo(1300, 2600) });
    assert_eq!(get_ko_tsumo(20, 5), RankedScore { rank: ScoreRank::Mangan, score: Score::KoTsumo(2000, 4000) });
    assert_eq!(get_ko_tsumo(20, 6), RankedScore { rank: ScoreRank::Haneman, score: Score::KoTsumo(3000, 6000) });
    assert_eq!(get_ko_tsumo(30, 1), RankedScore { rank: ScoreRank::Normal { fu: 30, han: 1 }, score: Score::KoTsumo(300, 500) }); // Note: naki tanyao
    assert_eq!(get_ko_tsumo(30, 2), RankedScore { rank: ScoreRank::Normal { fu: 30, han: 2 }, score: Score::KoTsumo(500, 1000) });
    assert_eq!(get_ko_tsumo(30, 3), RankedScore { rank: ScoreRank::Normal { fu: 30, han: 3 }, score: Score::KoTsumo(1000, 2000) });
    assert_eq!(get_ko_tsumo(30, 4), RankedScore { rank: ScoreRank::Normal { fu: 30, han: 4 }, score: Score::KoTsumo(2000, 3900) });
    assert_eq!(get_ko_tsumo(30, 5), RankedScore { rank: ScoreRank::Mangan, score: Score::KoTsumo(2000, 4000) });
    assert_eq!(get_ko_tsumo(30, 6), RankedScore { rank: ScoreRank::Haneman, score: Score::KoTsumo(3000, 6000) });
    assert_eq!(get_ko_tsumo(40, 1), RankedScore { rank: ScoreRank::Normal { fu: 40, han: 1 }, score: Score::KoTsumo(400, 700) });
    assert_eq!(get_ko_tsumo(40, 2), RankedScore { rank: ScoreRank::Normal { fu: 40, han: 2 }, score: Score::KoTsumo(700, 1300) });
    assert_eq!(get_ko_tsumo(40, 3), RankedScore { rank: ScoreRank::Normal { fu: 40, han: 3 }, score: Score::KoTsumo(1300, 2600) });
    assert_eq!(get_ko_tsumo(40, 4), RankedScore { rank: ScoreRank::Mangan, score: Score::KoTsumo(2000, 4000) });
    assert_eq!(get_ko_tsumo(40, 5), RankedScore { rank: ScoreRank::Mangan, score: Score::KoTsumo(2000, 4000) });
    assert_eq!(get_ko_tsumo(40, 6), RankedScore { rank: ScoreRank::Haneman, score: Score::KoTsumo(3000, 6000) });
    assert_eq!(get_ko_tsumo(25, 1), RankedScore { rank: ScoreRank::Normal { fu: 25, han: 1 }, score: Score::KoTsumo(200, 400) }); // Note: doesn't actually exist
    assert_eq!(get_ko_tsumo(25, 2), RankedScore { rank: ScoreRank::Normal { fu: 25, han: 2 }, score: Score::KoTsumo(400, 800) });
    assert_eq!(get_ko_tsumo(25, 3), RankedScore { rank: ScoreRank::Normal { fu: 25, han: 3 }, score: Score::KoTsumo(800, 1600) });
    assert_eq!(get_ko_tsumo(25, 4), RankedScore { rank: ScoreRank::Normal { fu: 25, han: 4 }, score: Score::KoTsumo(1600, 3200) });
    assert_eq!(get_ko_tsumo(25, 5), RankedScore { rank: ScoreRank::Mangan, score: Score::KoTsumo(2000, 4000) });
    assert_eq!(get_ko_tsumo(25, 6), RankedScore { rank: ScoreRank::Haneman, score: Score::KoTsumo(3000, 6000) });
}

#[test]
fn test_parse_ron() {
    assert_eq!(
        parse_exact_ranked_score("40符3飜7700点"),
        Some(RankedScore {
            rank: ScoreRank::Normal { fu: 40, han: 3 },
            score: Score::Ron(7700)
        })
    );
    assert_eq!(
        parse_exact_ranked_score("満貫8000点"),
        Some(RankedScore {
            rank: ScoreRank::Mangan,
            score: Score::Ron(8000)
        })
    );
    assert_eq!(parse_exact_ranked_score("40符3飜7700点 "), None);
}

#[test]
fn test_parse_ko_tsumo() {
    assert_eq!(
        parse_exact_ranked_score("30符3飜1000-2000点"),
        Some(RankedScore {
            rank: ScoreRank::Normal { fu: 30, han: 3 },
            score: Score::KoTsumo(1000, 2000)
        })
    );
    assert_eq!(
        parse_exact_ranked_score("跳満3000-6000点"),
        Some(RankedScore {
            rank: ScoreRank::Haneman,
            score: Score::KoTsumo(3000, 6000)
        })
    );
    assert_eq!(parse_exact_ranked_score("30符3飜1000-2000点 "), None);
}

#[test]
fn test_parse_oya_tsumo() {
    assert_eq!(
        parse_exact_ranked_score("30符3飜2000点∀"),
        Some(RankedScore {
            rank: ScoreRank::Normal { fu: 30, han: 3 },
            score: Score::OyaTsumo(2000)
        })
    );
    assert_eq!(
        parse_exact_ranked_score("満貫4000点∀"),
        Some(RankedScore {
            rank: ScoreRank::Mangan,
            score: Score::OyaTsumo(4000)
        })
    );
    assert_eq!(parse_exact_ranked_score("30符3飜2000点∀ "), None);
}

#[test]
fn test_yakuman_payouts() {
    // a dealer self-draw of two stacked yakuman pays double the limit figure
    assert_eq!(
        get_oya_tsumo_yakuman(2),
        RankedScore { rank: ScoreRank::Yakuman, score: Score::OyaTsumo(32000) }
    );
    assert_eq!(
        get_ko_tsumo_yakuman(1),
        RankedScore { rank: ScoreRank::Yakuman, score: Score::KoTsumo(8000, 16000) }
    );
    assert_eq!(
        get_oya_ron_yakuman(1),
        RankedScore { rank: ScoreRank::Yakuman, score: Score::Ron(48000) }
    );
}

#[test]
fn test_score_text_round_trip() {
    // printing any computed score and parsing the text restores the score
    for fu in [20u8, 25, 30, 40, 50, 70, 110] {
        for han in 1u8..=13 {
            let rs = get_ko_tsumo(fu, han);
            assert_eq!(parse_exact_ranked_score(&rs.to_text()), Some(rs));
            let rs = get_oya_tsumo(fu, han);
            assert_eq!(parse_exact_ranked_score(&rs.to_text()), Some(rs));
            let rs = get_ko_ron(fu, han);
            assert_eq!(parse_exact_ranked_score(&rs.to_text()), Some(rs));
        }
    }
}
