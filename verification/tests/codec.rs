use mjlog2json::conv::{conv_hai_to_tile, conv_tile_to_hai};
use mjlog2json::mjlog::model::{Direction, Hai, Meld};
use mjlog2json::mjlog::parser::{conv_meld_from_u16, conv_meld_to_u16, MjlogError};
use mjlog2json::tenhou::exporter::{export_incoming_tile, export_outgoing_tile};
use mjlog2json::tenhou::model::{is_valid_tile, IncomingTile, OutgoingTile, Tile};
use mjlog2json::tenhou::parser::{
    conv_incoming_tile, conv_outgoing_tile, parse_decorated_tile, JVal, TenhouJsonErrorKind,
};

#[test]
fn test_tile_text_domain() {
    // exactly the two-digit codes of the domain are accepted
    for x in 0u16..=255 {
        let x = x as u8;
        let expected = (11..=19).contains(&x)
            || (21..=29).contains(&x)
            || (31..=39).contains(&x)
            || (41..=47).contains(&x)
            || (51..=53).contains(&x);
        assert_eq!(is_valid_tile(x), expected);
        assert_eq!(Tile::from_u8(x).is_ok(), expected);
    }
}

#[test]
fn test_tile_binary_round_trip() {
    // all 136 physical ordinals decode, and the decoded tile survives a
    // trip through its canonical ordinal
    for o in 0u8..136 {
        let t = conv_hai_to_tile(Hai(o), true).unwrap();
        let back = conv_tile_to_hai(t);
        assert_eq!(conv_hai_to_tile(back, true).unwrap(), t);
    }
    // the three red ordinals decode to the red codes
    assert_eq!(conv_hai_to_tile(Hai(16), true).unwrap(), Tile(51));
    assert_eq!(conv_hai_to_tile(Hai(52), true).unwrap(), Tile(52));
    assert_eq!(conv_hai_to_tile(Hai(88), true).unwrap(), Tile(53));
    // with red fives disabled they decode to the black codes
    assert_eq!(conv_hai_to_tile(Hai(16), false).unwrap(), Tile(15));
}

#[test]
fn test_meld_binary_round_trip() {
    // every supported descriptor whose call the encoder accepts comes
    // back as the same call
    let mut checked = 0u32;
    for m in 0u32..=0xffff {
        let m = m as u16;
        if let Ok(meld) = conv_meld_from_u16(m) {
            if let Ok(m2) = conv_meld_to_u16(&meld) {
                assert_eq!(conv_meld_from_u16(m2).unwrap(), meld);
                checked += 1;
            }
        }
    }
    assert!(checked > 0);
}

#[test]
fn test_meld_binary_unsupported() {
    // the seat-exchange call bit is recognized and refused
    assert_eq!(conv_meld_from_u16(0x0020), Err(MjlogError::UnexpectedPeiNuki));
}

#[test]
fn test_meld_binary_chii() {
    // pattern 0 with all offsets 0: the lowest run of the first suit
    let m = 0x0004u16;
    assert_eq!(
        conv_meld_from_u16(m).unwrap(),
        Meld::Chii { combination: (Hai(0), Hai(4), Hai(8)), called_position: 0 }
    );
    // an own-seat quad stores the ordinal in the high byte
    assert_eq!(conv_meld_from_u16(17u16 * 256).unwrap(), Meld::Ankan { hai: Hai(17) });
    assert_eq!(
        conv_meld_from_u16(17u16 * 256 + 3).unwrap(),
        Meld::Daiminkan { dir: Direction::Kamicha, hai: Hai(17) }
    );
}

#[test]
fn test_decorated_letter_positions() {
    // a letter at an odd offset is refused as such
    let r = parse_decorated_tile("1p23");
    assert_eq!(r.unwrap_err(), TenhouJsonErrorKind::InvalidLetterPosition);
    // a letter at an even offset passes the position check; this token
    // then fails on its odd digit count, not on the letter position
    let r = parse_decorated_tile("12p3");
    assert_eq!(r.unwrap_err(), TenhouJsonErrorKind::InvalidMeld);
    // a well-formed token decodes
    let (tiles, letter, pos) = parse_decorated_tile("11p1111").unwrap();
    assert_eq!(tiles, vec![Tile(11), Tile(11), Tile(11)]);
    assert_eq!(letter, 'p');
    assert_eq!(pos, 2);
}

#[test]
fn test_incoming_tokens() {
    assert_eq!(
        conv_incoming_tile(&JVal::Int(24)).unwrap(),
        IncomingTile::Tsumo(Tile(24))
    );
    assert_eq!(
        conv_incoming_tile(&JVal::Str("c121314".to_string())).unwrap(),
        IncomingTile::Chii { combination: (Tile(12), Tile(13), Tile(14)) }
    );
    assert_eq!(
        conv_incoming_tile(&JVal::Str("11p1111".to_string())).unwrap(),
        IncomingTile::Pon {
            combination: (Tile(11), Tile(11), Tile(11)),
            dir: mjlog2json::tenhou::model::Direction::Toimen
        }
    );
    // the decode rejects a letter at an odd offset with its own kind
    assert_eq!(
        conv_incoming_tile(&JVal::Str("1p23".to_string())).unwrap_err().kind,
        TenhouJsonErrorKind::InvalidLetterPosition
    );
}

#[test]
fn test_outgoing_tokens() {
    assert_eq!(conv_outgoing_tile(&JVal::Int(60)).unwrap(), OutgoingTile::Tsumogiri);
    assert_eq!(conv_outgoing_tile(&JVal::Int(0)).unwrap(), OutgoingTile::Dummy);
    assert_eq!(
        conv_outgoing_tile(&JVal::Str("r60".to_string())).unwrap(),
        OutgoingTile::TsumogiriRiichi
    );
    assert_eq!(
        conv_outgoing_tile(&JVal::Str("r19".to_string())).unwrap(),
        OutgoingTile::Riichi(Tile(19))
    );
    assert_eq!(
        conv_outgoing_tile(&JVal::Str("151515a51".to_string())).unwrap(),
        OutgoingTile::Ankan(Tile(51))
    );
    // the added tile of an added quad sits right after its letter
    assert_eq!(
        conv_outgoing_tile(&JVal::Str("35k353553".to_string())).unwrap(),
        OutgoingTile::Kakan {
            combination: (Tile(35), Tile(35), Tile(53)),
            dir: mjlog2json::tenhou::model::Direction::Toimen,
            added: Tile(35)
        }
    );
}

#[test]
fn test_token_round_trip() {
    // writing a stream entry and reading the token back restores it
    let entries = vec![
        IncomingTile::Tsumo(Tile(42)),
        IncomingTile::Chii { combination: (Tile(12), Tile(13), Tile(14)) },
        IncomingTile::Pon {
            combination: (Tile(51), Tile(15), Tile(15)),
            dir: mjlog2json::tenhou::model::Direction::Kamicha,
        },
        IncomingTile::Daiminkan {
            combination: (Tile(21), Tile(21), Tile(21), Tile(21)),
            dir: mjlog2json::tenhou::model::Direction::Shimocha,
        },
    ];
    for e in entries {
        let v = export_incoming_tile(&e);
        assert_eq!(conv_incoming_tile(&v).unwrap(), e);
    }
    let outs = vec![
        OutgoingTile::Discard(Tile(33)),
        OutgoingTile::Riichi(Tile(52)),
        OutgoingTile::Tsumogiri,
        OutgoingTile::TsumogiriRiichi,
        OutgoingTile::Ankan(Tile(51)),
        OutgoingTile::Kakan {
            combination: (Tile(26), Tile(26), Tile(26)),
            dir: mjlog2json::tenhou::model::Direction::Shimocha,
            added: Tile(26),
        },
        OutgoingTile::Dummy,
    ];
    for e in outs {
        let v = export_outgoing_tile(&e);
        assert_eq!(conv_outgoing_tile(&v).unwrap(), e);
    }
}

#[test]
fn test_meld_text_encode() {
    // the caller's seat decides where the letter sits
    let v = export_incoming_tile(&IncomingTile::Pon {
        combination: (Tile(11), Tile(11), Tile(11)),
        dir: mjlog2json::tenhou::model::Direction::Toimen,
    });
    assert_eq!(v, JVal::Str("11p1111".to_string()));
    let v = export_outgoing_tile(&OutgoingTile::Ankan(Tile(51)));
    assert_eq!(v, JVal::Str("151515a51".to_string()));
}
