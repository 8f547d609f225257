use mjlog2json::conv::{
    conv_to_tenhou_json, extract_round_indices, mjlog_conv_wf_check, replay_actions, ConvError,
};
use mjlog2json::mjlog::model::{
    Action, ActionAGARI, ActionDISCARD, ActionDRAW, ActionGO, ActionINIT, ActionN, ActionREACH1,
    ActionUN1, Direction, GameSettings, Hai, InitSeed, Meld, Mjlog, Player, TenhouRank, TenhouRoom,
    Yaku,
};
use mjlog2json::tenhou::model::{IncomingTile, OutgoingTile, Tile};

fn pon_red_unused() -> Meld {
    // the four copies of the first suit's five: the red copy stays unused
    Meld::Pon {
        dir: Direction::Kamicha,
        combination: (Hai(19), Hai(17), Hai(18)),
        called: Hai(19),
        unused: Hai(16),
    }
}

#[test]
fn test_pon_red_unused_left_seat() {
    // a left-seat triplet of fives whose unused copy is red shows the
    // red at the first slot
    let actions = vec![Action::N(ActionN { who: Player(0), m: pon_red_unused() })];
    let (incoming, outgoing) = replay_actions(&actions, Player(0), 0, 1).unwrap();
    assert_eq!(
        incoming,
        vec![IncomingTile::Pon {
            combination: (Tile(51), Tile(15), Tile(15)),
            dir: mjlog2json::tenhou::model::Direction::Kamicha,
        }]
    );
    assert_eq!(outgoing, Vec::<OutgoingTile>::new());
}

#[test]
fn test_replay_streams() {
    // a draw feeds the incoming stream; discarding the drawn tile is
    // marked as such, a riichi declaration marks the next discard
    let actions = vec![
        Action::DRAW(ActionDRAW { who: Player(1), hai: Hai(20) }),
        Action::DISCARD(ActionDISCARD { who: Player(1), hai: Hai(20) }),
        Action::DRAW(ActionDRAW { who: Player(1), hai: Hai(24) }),
        Action::REACH1(ActionREACH1 { who: Player(1) }),
        Action::DISCARD(ActionDISCARD { who: Player(1), hai: Hai(28) }),
        Action::DRAW(ActionDRAW { who: Player(2), hai: Hai(30) }),
    ];
    let (incoming, outgoing) = replay_actions(&actions, Player(1), 0, actions.len()).unwrap();
    assert_eq!(
        incoming,
        vec![IncomingTile::Tsumo(Tile(16)), IncomingTile::Tsumo(Tile(17))]
    );
    assert_eq!(
        outgoing,
        vec![OutgoingTile::Tsumogiri, OutgoingTile::Riichi(Tile(18))]
    );
}

#[test]
fn test_daiminkan_filler_trimmed() {
    // an open quad pairs with a filler in the outgoing stream; a filler
    // left trailing at the end of the round is stripped
    let quad = Action::N(ActionN {
        who: Player(0),
        m: Meld::Daiminkan { dir: Direction::Toimen, hai: Hai(40) },
    });
    let (incoming, outgoing) = replay_actions(&vec![quad.clone()], Player(0), 0, 1).unwrap();
    assert_eq!(incoming.len(), 1);
    assert!(matches!(incoming[0], IncomingTile::Daiminkan { .. }));
    assert_eq!(outgoing, Vec::<OutgoingTile>::new());

    // with a later discard the filler stays, keeping the streams aligned
    let actions = vec![
        quad,
        Action::DRAW(ActionDRAW { who: Player(0), hai: Hai(60) }),
        Action::DISCARD(ActionDISCARD { who: Player(0), hai: Hai(60) }),
    ];
    let (_, outgoing) = replay_actions(&actions, Player(0), 0, actions.len()).unwrap();
    assert_eq!(outgoing, vec![OutgoingTile::Dummy, OutgoingTile::Tsumogiri]);
    assert!(!matches!(outgoing.last().unwrap(), OutgoingTile::Dummy));
}

fn init_action(kyoku: u8) -> Action {
    Action::INIT(ActionINIT {
        seed: InitSeed { kyoku, honba: 0, kyoutaku: 0, dice: (1, 2), dora_hyouji: Hai(5) },
        ten: vec![250, 250, 250, 250],
        oya: Player(0),
        hai: vec![vec![], vec![], vec![], vec![]],
    })
}

#[test]
fn test_three_round_segmentation() {
    // three round-inits split into exactly three rounds, the last
    // spanning to the end of the log
    let actions = vec![
        init_action(0),
        Action::DRAW(ActionDRAW { who: Player(0), hai: Hai(0) }),
        init_action(1),
        init_action(2),
        Action::DRAW(ActionDRAW { who: Player(1), hai: Hai(1) }),
        Action::DRAW(ActionDRAW { who: Player(2), hai: Hai(2) }),
    ];
    let indices = extract_round_indices(&actions);
    assert_eq!(indices, vec![(0, 2), (2, 3), (3, 6)]);
    // a log without a round-init yields no rounds
    let empty = vec![Action::DRAW(ActionDRAW { who: Player(0), hai: Hai(0) })];
    assert_eq!(extract_round_indices(&empty), Vec::<(usize, usize)>::new());
}

fn go_action() -> Action {
    Action::GO(ActionGO {
        settings: GameSettings {
            vs_human: true,
            no_red: false,
            no_kuitan: false,
            hanchan: true,
            sanma: false,
            soku: false,
            room: TenhouRoom::Ippan,
        },
        lobby: 0,
    })
}

fn un1_action() -> Action {
    Action::UN1(ActionUN1 {
        names: vec!["A".to_string(), "B".to_string(), "C".to_string(), "D".to_string()],
        dan: vec![TenhouRank::Newcomer; 4],
        rate: vec!["1500.00".to_string(); 4],
        sx: vec!["M".to_string(); 4],
    })
}

fn agari_action() -> Action {
    Action::AGARI(ActionAGARI {
        honba: 0,
        kyoutaku: 0,
        hai: vec![Hai(0), Hai(1)],
        m: vec![],
        machi: Hai(0),
        fu: 30,
        net_score: 7700,
        score_rank: mjlog2json::mjlog::model::ScoreRank::Normal,
        yaku: vec![(Yaku::Riichi, 1), (Yaku::Tanyao, 1)],
        yakuman: vec![],
        dora_hai: vec![Hai(5)],
        dora_hai_ura: vec![Hai(9)],
        who: Player(1),
        from_who: Player(2),
        pao_who: None,
        before_points: vec![250, 250, 250, 250],
        delta_points: vec![0, 77, -77, 0],
        owari: Some((vec![250, 327, 173, 250], vec!["54.0".to_string(), "7.0".to_string(), "-23.0".to_string(), "-38.0".to_string()])),
    })
}

#[test]
fn test_whole_match_conversion() {
    let mjlog = Mjlog {
        ver: "2.3".to_string(),
        actions: vec![
            go_action(),
            un1_action(),
            init_action(0),
            Action::DRAW(ActionDRAW { who: Player(2), hai: Hai(36) }),
            Action::BYE(mjlog2json::mjlog::model::ActionBYE { who: Player(3) }),
            Action::DISCARD(ActionDISCARD { who: Player(2), hai: Hai(36) }),
            agari_action(),
        ],
    };
    assert!(mjlog_conv_wf_check(&mjlog));
    let t = conv_to_tenhou_json(&mjlog).unwrap();
    assert_eq!(t.ver, "2.3");
    assert_eq!(t.ratingc, "PF4");
    assert_eq!(t.rule.disp, "般南喰赤");
    assert!(t.rule.aka51 && t.rule.aka52 && t.rule.aka53);
    assert_eq!(t.rounds.len(), 1);
    assert_eq!(t.names, vec!["A", "B", "C", "D"]);
    assert_eq!(t.dan, vec!["新人", "新人", "新人", "新人"]);
    assert_eq!(t.final_points, vec![25000, 32700, 17300, 25000]);
    // the seat-left event lands in round zero, one step after the draw
    assert_eq!(
        t.connections,
        vec![mjlog2json::tenhou::model::Connection { what: 0, log: 0, who: 3, step: 1 }]
    );
    let round = &t.rounds[0];
    // scores are stored in hundred-point units and scaled on conversion
    assert_eq!(round.settings.points, vec![25000, 25000, 25000, 25000]);
    // the dora list starts with the initial indicator
    assert_eq!(round.settings.dora, vec![Tile(12)]);
    assert_eq!(round.settings.ura_dora, vec![Tile(13)]);
    match &round.result {
        mjlog2json::tenhou::model::RoundResult::Agari { agari_vec } => {
            assert_eq!(agari_vec.len(), 1);
            let a = &agari_vec[0];
            assert_eq!(a.who, 1);
            assert_eq!(a.from_who, 2);
            assert_eq!(a.pao_who, 1);
            assert_eq!(a.delta_points, vec![0, 7700, -7700, 0]);
            // two listed yaku of one han each score as a two-han hand
            assert_eq!(
                a.ranked_score,
                mjlog2json::tenhou::score::RankedScore {
                    rank: mjlog2json::tenhou::score::ScoreRank::Normal { fu: 30, han: 2 },
                    score: mjlog2json::tenhou::score::Score::Ron(2000)
                }
            );
        }
        _ => panic!("expected a win"),
    }
}

#[test]
fn test_missing_parts() {
    // without a round-init the conversion names the missing round
    let mjlog = Mjlog { ver: "2.3".to_string(), actions: vec![go_action(), un1_action()] };
    assert!(mjlog_conv_wf_check(&mjlog));
    assert_eq!(conv_to_tenhou_json(&mjlog), Err(ConvError::NotFoundRound));
    // without a table-open record the conversion names it
    let mjlog = Mjlog { ver: "2.3".to_string(), actions: vec![un1_action(), init_action(0)] };
    assert!(mjlog_conv_wf_check(&mjlog));
    assert_eq!(conv_to_tenhou_json(&mjlog), Err(ConvError::NotFoundActionGO));
    // a log whose rounds never terminate has no final standing
    let mjlog = Mjlog {
        ver: "2.3".to_string(),
        actions: vec![go_action(), un1_action(), init_action(0)],
    };
    assert!(mjlog_conv_wf_check(&mjlog));
    assert_eq!(conv_to_tenhou_json(&mjlog), Err(ConvError::NotFoundFinalResult));
}

#[test]
fn test_document_round_trip() {
    // writing the converted record out and reading the document back
    // restores the record
    let mjlog = Mjlog {
        ver: "2.3".to_string(),
        actions: vec![
            go_action(),
            un1_action(),
            init_action(0),
            Action::DRAW(ActionDRAW { who: Player(2), hai: Hai(36) }),
            Action::DISCARD(ActionDISCARD { who: Player(2), hai: Hai(36) }),
            agari_action(),
        ],
    };
    assert!(mjlog_conv_wf_check(&mjlog));
    let t = conv_to_tenhou_json(&mjlog).unwrap();
    let tree = mjlog2json::tenhou::exporter::export_tenhou_json(&t).unwrap();
    let back = mjlog2json::tenhou::parser::parse_tenhou_json(&tree).unwrap();
    assert_eq!(back, t);
}
