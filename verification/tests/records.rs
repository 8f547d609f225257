use mjlog2json::mjlog::model::{Action, Direction, Hai, Player, TenhouRank, TenhouRoom, Yaku};
use mjlog2json::mjlog::parser::{
    conv_action, parse_mjlogs, MjlogError, RawEvent, RawTag,
};

fn tag(name: &str, attrs: &[(&str, &str)]) -> RawTag {
    RawTag {
        name: name.to_string(),
        attrs: attrs.iter().map(|(k, v)| (k.to_string(), v.to_string())).collect(),
    }
}

#[test]
fn test_go_record() {
    let a = conv_action(&tag("GO", &[("type", "169"), ("lobby", "0")])).unwrap();
    match a {
        Action::GO(go) => {
            assert!(go.settings.vs_human);
            assert!(!go.settings.no_red);
            assert!(go.settings.hanchan);
            assert_eq!(go.settings.room, TenhouRoom::Houou);
            assert_eq!(go.lobby, 0);
        }
        _ => panic!("expected a table-open record"),
    }
}

#[test]
fn test_draw_and_discard_tags() {
    // the one-letter tags carry the seat and the ordinal
    let a = conv_action(&tag("T68", &[])).unwrap();
    assert_eq!(
        a,
        Action::DRAW(mjlog2json::mjlog::model::ActionDRAW { who: Player(0), hai: Hai(68) })
    );
    let a = conv_action(&tag("G11", &[])).unwrap();
    assert_eq!(
        a,
        Action::DISCARD(mjlog2json::mjlog::model::ActionDISCARD { who: Player(3), hai: Hai(11) })
    );
    // an out-of-range ordinal is no draw tag
    let r = conv_action(&tag("T136", &[]));
    assert!(matches!(r, Err(MjlogError::UnexpectedTag(_))));
}

#[test]
fn test_roster_and_reconnect() {
    let a = conv_action(&tag(
        "UN",
        &[
            ("n0", "%41"),
            ("n1", "%42"),
            ("n2", "%43"),
            ("n3", "%44"),
            ("dan", "12,10,1,0"),
            ("rate", "1799.28,1600.00,1500.10,1400.00"),
            ("sx", "M,M,F,M"),
        ],
    ))
    .unwrap();
    match a {
        Action::UN1(u) => {
            assert_eq!(u.names, vec!["A", "B", "C", "D"]);
            assert_eq!(
                u.dan,
                vec![TenhouRank::Dan3, TenhouRank::Dan1, TenhouRank::Kyu9, TenhouRank::Newcomer]
            );
            assert_eq!(u.rate[0], "1799.28");
            assert_eq!(u.sx, vec!["M", "M", "F", "M"]);
        }
        _ => panic!("expected a roster record"),
    }
    // one present name is a reconnect for that seat
    let a = conv_action(&tag("UN", &[("n2", "back")])).unwrap();
    match a {
        Action::UN2(u) => {
            assert_eq!(u.who, Player(2));
            assert_eq!(u.name, "back");
        }
        _ => panic!("expected a reconnect record"),
    }
    // two names are neither a roster nor a reconnect
    let r = conv_action(&tag("UN", &[("n0", "a"), ("n1", "b")]));
    assert_eq!(r, Err(MjlogError::InvalidNameNum(2)));
}

#[test]
fn test_call_record() {
    let a = conv_action(&tag("N", &[("who", "2"), ("m", "42570")])).unwrap();
    match a {
        Action::N(n) => {
            assert_eq!(n.who, Player(2));
            match n.m {
                mjlog2json::mjlog::model::Meld::Pon { dir, .. } => {
                    assert_eq!(dir, Direction::Toimen);
                }
                _ => panic!("expected a triplet"),
            }
        }
        _ => panic!("expected a call record"),
    }
}

#[test]
fn test_agari_record() {
    let a = conv_action(&tag(
        "AGARI",
        &[
            ("ba", "0,0"),
            ("hai", "1,2,3"),
            ("machi", "1"),
            ("ten", "30,7700,0"),
            ("yaku", "1,1,8,1"),
            ("doraHai", "5"),
            ("who", "1"),
            ("fromWho", "2"),
            ("sc", "250,0,250,77,250,-77,250,0"),
            ("owari", "250,54.0,327,7.0,173,-23.0,250,-38.0"),
        ],
    ))
    .unwrap();
    match a {
        Action::AGARI(x) => {
            assert_eq!(x.fu, 30);
            assert_eq!(x.net_score, 7700);
            assert_eq!(x.yaku, vec![(Yaku::Riichi, 1), (Yaku::Tanyao, 1)]);
            assert_eq!(x.before_points, vec![250, 250, 250, 250]);
            assert_eq!(x.delta_points, vec![0, 77, -77, 0]);
            let (pts, res) = x.owari.unwrap();
            assert_eq!(pts, vec![250, 327, 173, 250]);
            assert_eq!(res, vec!["54.0", "7.0", "-23.0", "-38.0"]);
        }
        _ => panic!("expected a winning record"),
    }
}

#[test]
fn test_ryuukyoku_record() {
    let a = conv_action(&tag(
        "RYUUKYOKU",
        &[("ba", "0,0"), ("sc", "250,0,250,0,250,0,250,0"), ("type", "yao9")],
    ))
    .unwrap();
    match a {
        Action::RYUUKYOKU(x) => {
            assert_eq!(
                x.reason,
                Some(mjlog2json::mjlog::model::ExtraRyuukyokuReason::KyuusyuKyuuhai)
            );
            assert!(x.owari.is_none());
        }
        _ => panic!("expected a drawn-round record"),
    }
}

#[test]
fn test_event_stream() {
    // one match element with two records
    let events = vec![
        RawEvent::Decl,
        RawEvent::TagStart(tag("mjloggm", &[("ver", "2.3")])),
        RawEvent::TagEmpty(tag("SHUFFLE", &[("seed", "abc")])),
        RawEvent::TagEmpty(tag("BYE", &[("who", "3")])),
        RawEvent::TagEnd("mjloggm".to_string()),
    ];
    let logs = parse_mjlogs(&events).unwrap();
    assert_eq!(logs.len(), 1);
    assert_eq!(logs[0].ver, "2.3");
    assert_eq!(logs[0].actions.len(), 2);
    assert_eq!(
        logs[0].actions[1],
        Action::BYE(mjlog2json::mjlog::model::ActionBYE { who: Player(3) })
    );
    // a match element that never closes runs off the end of the input
    let events = vec![RawEvent::TagStart(tag("mjloggm", &[("ver", "2.3")]))];
    assert_eq!(parse_mjlogs(&events), Err(MjlogError::UnexpectedEof));
    // text content is not supported
    let events = vec![RawEvent::Text];
    assert_eq!(parse_mjlogs(&events), Err(MjlogError::UnexpectedText));
}
