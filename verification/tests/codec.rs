use osiris_core::duel::Duel;
use osiris_core::enums::{LOCATION_DECK, LOCATION_EXTRA};
use osiris_core::messages::{parse_packet, parse_replay_packet, MsgChaining, MsgDraw, MsgHint,
    MsgLpUpdate, MsgMove, MsgNewTurn, MsgRefreshDeck, MsgRequestDeck, MsgRetry, MsgShowHint,
    MsgSpSummoning, MsgStart, MsgSummoning, MsgType, MsgUpdateCard, MsgUpdateData, MsgWaiting,
    MsgWin};
use osiris_core::mtrandom::Mt19937;
use osiris_core::processor::ProcessorType;
use osiris_core::replay::{DeckArray, DuelParameters, Replay, ReplayError, ReplayHeader,
    REPLAY_COMPRESSED, REPLAY_ID_YRP1, REPLAY_SINGLE_MODE};
use osiris_core::types::CardId;

#[test]
fn msg_type_tags_round_trip() {
    for t in 0..=255u8 {
        let m = MsgType::from(t);
        assert_eq!(m.tag(), t);
    }
    assert_eq!(MsgType::from(90), MsgType::Draw);
    assert_eq!(MsgType::from(9), MsgType::Unknown(9));
}

#[test]
fn message_payloads_round_trip() {
    let d = MsgDraw { player: 1, count: 3 };
    assert_eq!(MsgDraw::parse(&d.encode()), Some(d));

    let t = MsgNewTurn { player: 1 };
    assert_eq!(MsgNewTurn::parse(&t.encode()), Some(t));

    let w = MsgWin { player: 0, reason: 4 };
    assert_eq!(MsgWin::parse(&w.encode()), Some(w));

    let h = MsgHint { hint_type: 2, player: 1, data: -7 };
    assert_eq!(MsgHint::parse(&h.encode()), Some(h));

    let l = MsgLpUpdate { player: 1, lp: 7200 };
    assert_eq!(MsgLpUpdate::parse(&l.encode()), Some(l));

    let ud = MsgUpdateData { flag: 9 };
    assert_eq!(MsgUpdateData::parse(&ud.encode()), Some(ud));

    let uc = MsgUpdateCard { flag: 2, code: 0xdeadbeef };
    assert_eq!(MsgUpdateCard::parse(&uc.encode()), Some(uc));

    assert_eq!(MsgRetry::parse(&MsgRetry.encode()), Some(MsgRetry));
    assert_eq!(MsgWaiting::parse(&MsgWaiting.encode()), Some(MsgWaiting));
    assert_eq!(MsgRequestDeck::parse(&MsgRequestDeck.encode()), Some(MsgRequestDeck));
    assert_eq!(MsgRefreshDeck::parse(&MsgRefreshDeck.encode()), Some(MsgRefreshDeck));

    let m = MsgMove {
        code: 55667788,
        from_player: 0,
        from_loc: 1,
        from_seq: 2,
        from_pos: 3,
        to_player: 1,
        to_loc: 4,
        to_seq: 5,
        to_pos: 6,
        reason: -1,
    };
    assert_eq!(MsgMove::parse(&m.encode()), Some(m));

    let c = MsgChaining {
        code: 424242,
        src_player: 0,
        src_loc: 2,
        src_seq: 3,
        src_sub: 4,
        trg_player: 1,
        trg_loc: 5,
        trg_seq: 6,
        desc: 1234,
        ctype: 7,
    };
    assert_eq!(MsgChaining::parse(&c.encode()), Some(c));

    let s = MsgStart {
        player_type: 0,
        duel_rule: 5,
        lp: [8000, 8000],
        deck_count: [40, 41],
        extra_count: [15, 14],
    };
    let parsed = MsgStart::parse(&s.encode()).unwrap();
    assert_eq!(parsed, s);
    assert!(parsed.lp[0] > 0);
}

#[test]
fn summoning_round_trips_with_optional_fields() {
    for (attack, level) in
        [(None, None), (None, Some(4u8)), (Some(1800i32), None), (Some(-5), Some(8))]
    {
        let m = MsgSummoning { code: 77, player: 1, loc: 4, seq: 2, pos: 1, attack, level };
        assert_eq!(MsgSummoning::parse(&m.encode()), Some(m));
        let sp = MsgSpSummoning { code: 78, player: 0, loc: 4, seq: 3, pos: 5, attack, level };
        assert_eq!(MsgSpSummoning::parse(&sp.encode()), Some(sp));
    }
}

#[test]
fn truncated_payloads_are_rejected() {
    assert_eq!(MsgDraw::parse(&[1]), None);
    assert_eq!(MsgLpUpdate::parse(&[1, 2, 3, 4]), None);
    assert_eq!(MsgMove::parse(&[0; 15]), None);
    assert_eq!(MsgStart::parse(&[0; 17]), None);
    assert_eq!(MsgSummoning::parse(&[0; 7]), None);
}

#[test]
fn show_hint_decodes_utf16() {
    let mut payload: Vec<u8> = Vec::new();
    for ch in "Hi!".encode_utf16() {
        payload.extend_from_slice(&ch.to_le_bytes());
    }
    payload.extend_from_slice(&[0, 0]);
    payload.extend_from_slice(&[0x41, 0x00]);
    let m = MsgShowHint::parse(&payload).unwrap();
    assert_eq!(m.message, "Hi!");
}

#[test]
fn packets_unwrap_containers() {
    let (t, payload) = parse_packet(&[90, 1, 3]);
    assert_eq!(t, MsgType::Draw);
    assert_eq!(payload, vec![1, 3]);

    let (container, t2, payload2) = parse_replay_packet(&[1, 90, 0, 2]);
    assert_eq!(container, Some(1));
    assert_eq!(t2, MsgType::Draw);
    assert_eq!(payload2, vec![0, 2]);

    let (container3, t3, payload3) = parse_replay_packet(&[90, 0, 2]);
    assert_eq!(container3, None);
    assert_eq!(t3, MsgType::Draw);
    assert_eq!(payload3, vec![0, 2]);
}

/// The body of a plain two-player replay: names, parameters, then each
/// player's main and extra lists.
fn replay_body(names: [&str; 2], start_lp: i32, decks: &[(Vec<u32>, Vec<u32>)]) -> Vec<u8> {
    let mut body: Vec<u8> = Vec::new();
    for name in names {
        let mut units: Vec<u16> = name.encode_utf16().collect();
        units.resize(20, 0);
        for u in units {
            body.extend_from_slice(&u.to_le_bytes());
        }
    }
    body.extend_from_slice(&start_lp.to_le_bytes());
    body.extend_from_slice(&5i32.to_le_bytes());
    body.extend_from_slice(&1i32.to_le_bytes());
    body.extend_from_slice(&0u32.to_le_bytes());
    for (main, extra) in decks {
        body.extend_from_slice(&(main.len() as u32).to_le_bytes());
        for c in main {
            body.extend_from_slice(&c.to_le_bytes());
        }
        body.extend_from_slice(&(extra.len() as u32).to_le_bytes());
        for c in extra {
            body.extend_from_slice(&c.to_le_bytes());
        }
    }
    body
}

fn replay_bytes(flag: u32, seed: u32, body: &[u8], stored: &[u8]) -> Vec<u8> {
    let mut out: Vec<u8> = Vec::new();
    out.extend_from_slice(&REPLAY_ID_YRP1.to_le_bytes());
    out.extend_from_slice(&0x12d0u32.to_le_bytes());
    out.extend_from_slice(&flag.to_le_bytes());
    out.extend_from_slice(&seed.to_le_bytes());
    out.extend_from_slice(&(body.len() as u32).to_le_bytes());
    out.extend_from_slice(&0u32.to_le_bytes());
    out.extend_from_slice(&[0u8; 8]);
    out.extend_from_slice(stored);
    out
}

#[test]
fn test_replay_parse_uncompressed() {
    let body = replay_body(
        ["Alice", "Bob"],
        8000,
        &[(vec![12345], vec![]), (vec![12345], vec![])],
    );
    let bytes = replay_bytes(0, 0, &body, &body);
    let r = Replay::open(&bytes).expect("open replay");
    assert_eq!(r.players.len(), 2);
    assert_eq!(r.players[0], "Alice");
    assert_eq!(r.players[1], "Bob");
    assert_eq!(r.params.start_lp, 8000);
    assert_eq!(r.decks.len(), 2);
    assert_eq!(r.decks[0].main[0], 12345);
    assert!(r.decompressed_ok);
}

#[test]
fn replay_parses_compressed_body() {
    let body = replay_body(["Alice", "Bob"], 8000, &[(vec![1, 2, 3], vec![9]), (vec![4], vec![])]);
    let mut compressed: Vec<u8> = Vec::new();
    lzma_rs::lzma_compress(&mut std::io::Cursor::new(&body), &mut compressed).expect("compress");
    let bytes = replay_bytes(REPLAY_COMPRESSED, 7, &body, &compressed);
    let r = Replay::open(&bytes).expect("open replay");
    assert!(r.decompressed_ok, "the compressed body must decode");
    assert_eq!(r.players, vec!["Alice".to_string(), "Bob".to_string()]);
    assert_eq!(r.decks[0].main, vec![1, 2, 3]);
    assert_eq!(r.decks[0].extra, vec![9]);
    assert_eq!(r.decks[1].main, vec![4]);
}

#[test]
fn replay_decodes_native_headerless_body() {
    let body = replay_body(["Alice", "Bob"], 8000, &[(vec![7, 8], vec![]), (vec![9], vec![])]);
    let mut full: Vec<u8> = Vec::new();
    lzma_rs::lzma_compress(&mut std::io::Cursor::new(&body), &mut full).expect("compress");
    // The ecosystem's native compressor stores the five property bytes in
    // the container header and writes no size field into the stream: keep
    // the properties, drop the eight size bytes.
    let props = &full[0..5];
    let stored = &full[13..];
    let mut bytes: Vec<u8> = Vec::new();
    bytes.extend_from_slice(&REPLAY_ID_YRP1.to_le_bytes());
    bytes.extend_from_slice(&0x12d0u32.to_le_bytes());
    bytes.extend_from_slice(&REPLAY_COMPRESSED.to_le_bytes());
    bytes.extend_from_slice(&7u32.to_le_bytes());
    bytes.extend_from_slice(&(body.len() as u32).to_le_bytes());
    bytes.extend_from_slice(&0u32.to_le_bytes());
    bytes.extend_from_slice(props);
    bytes.extend_from_slice(&[0u8; 3]);
    bytes.extend_from_slice(stored);
    let r = Replay::open(&bytes).expect("open replay");
    assert!(r.decompressed_ok, "the headerless body must decode");
    assert_eq!(r.players, vec!["Alice".to_string(), "Bob".to_string()]);
    assert_eq!(r.params.start_lp, 8000);
    assert_eq!(r.decks[0].main, vec![7, 8]);
    assert_eq!(r.decks[1].main, vec![9]);
}

#[test]
fn replay_keeps_raw_bytes_when_decode_fails() {
    let body = replay_body(["A", "B"], 100, &[(vec![], vec![]), (vec![], vec![])]);
    let garbage = vec![0xffu8; 40];
    let bytes = replay_bytes(REPLAY_COMPRESSED, 7, &body, &garbage);
    let r = Replay::open(&bytes).expect("open replay");
    assert!(!r.decompressed_ok);
    assert!(r.players.is_empty());
    assert_eq!(r.actions, garbage);
}

#[test]
fn replay_single_mode_reads_script_name() {
    let mut body = replay_body(["Alice", "Bob"], 4000, &[]);
    let name = b"./single/test.lua";
    body.extend_from_slice(&(name.len() as u16).to_le_bytes());
    body.extend_from_slice(name);
    let bytes = replay_bytes(REPLAY_SINGLE_MODE, 0, &body, &body);
    let r = Replay::open(&bytes).expect("open replay");
    assert_eq!(r.script_name.as_deref(), Some("test.lua"));
    assert!(r.decks.is_empty());
}

#[test]
fn replay_errors_name_their_cause() {
    let short = Replay::open(&[0u8; 10]);
    assert!(matches!(short, Err(ReplayError::Truncated)));

    let body = replay_body(["A", "B"], 100, &[(vec![1], vec![])]);
    let bytes = replay_bytes(0, 0, &body, &body);
    let r = Replay::open(&bytes);
    assert!(matches!(r, Err(ReplayError::Truncated)), "a missing second deck is truncation");

    let mut big = replay_body(["A", "B"], 100, &[]);
    big.extend_from_slice(&10000u32.to_le_bytes());
    let bytes2 = replay_bytes(0, 0, &big, &big);
    assert!(matches!(Replay::open(&bytes2), Err(ReplayError::DeckTooLarge)));

    let mut bad = replay_body(["A", "B"], 100, &[]);
    bad.extend_from_slice(&9u16.to_le_bytes());
    bad.extend_from_slice(b"/single/x");
    let bytes3 = replay_bytes(REPLAY_SINGLE_MODE, 0, &bad, &bad);
    assert!(matches!(Replay::open(&bytes3), Err(ReplayError::BadScriptName)));
}

#[test]
fn replay_splits_action_packets() {
    let mut body = replay_body(["A", "B"], 100, &[(vec![], vec![]), (vec![], vec![])]);
    // Three one-byte-length packets: the framing chooser must pick them up.
    body.extend_from_slice(&[2, 90, 7, 1, 40, 0]);
    let bytes = replay_bytes(0, 0, &body, &body);
    let r = Replay::open(&bytes).expect("open replay");
    assert_eq!(r.packet_data.len(), 3);
    assert_eq!(r.packet_data[0], vec![90, 7]);
    assert_eq!(r.packet_data[1], vec![40]);
    assert_eq!(r.packet_data[2], Vec::<u8>::new());
}

#[test]
fn test_replay_state_initialization() {
    let header = ReplayHeader {
        id: REPLAY_ID_YRP1,
        version: 0x12d0,
        flag: 0,
        seed: 12345,
        datasize: 0,
        start_time: 0,
        props: [0u8; 8],
    };

    let decks = vec![
        DeckArray { main: vec![1001, 1002, 1003], extra: vec![2001, 2002] },
        DeckArray { main: vec![3001, 3002], extra: vec![4001] },
    ];

    let replay = Replay {
        header,
        players: vec!["Player0".to_string(), "Player1".to_string()],
        params: DuelParameters::default(),
        decks,
        script_name: None,
        data: Vec::new(),
        actions: Vec::new(),
        packet_data: Vec::new(),
        decompressed_ok: true,
    };

    let mut duel = Duel::new(999);
    duel.load_replay(&replay);

    let mut test_rng = Mt19937::new(12345);
    let expected_first = test_rng.gen_u32();
    let actual_first = duel.data.random.gen_u32();
    assert_eq!(
        actual_first, expected_first,
        "RNG should produce deterministic output based on replay seed"
    );

    assert!(duel.data.processor_units.len() > 0, "Processor units should be initialized");
    assert_eq!(
        duel.data.processor_units[0].type_,
        ProcessorType::Turn,
        "First unit should be Turn type"
    );
    assert_eq!(duel.data.turn, 0, "Turn counter should be reset to 0");
    assert_eq!(duel.data.lp, [8000, 8000], "A non-positive start_lp falls back to 8000");

    let deck0 = duel.data.field.stack_cards(0, LOCATION_DECK);
    let deck1 = duel.data.field.stack_cards(1, LOCATION_DECK);
    let extra0 = duel.data.field.stack_cards(0, LOCATION_EXTRA);
    let extra1 = duel.data.field.stack_cards(1, LOCATION_EXTRA);
    assert_eq!(deck0.len(), 3, "Player 0 should have 3 main deck cards");
    assert_eq!(deck1.len(), 2, "Player 1 should have 2 main deck cards");
    assert_eq!(extra0.len(), 2, "Player 0 should have 2 extra deck cards");
    assert_eq!(extra1.len(), 1, "Player 1 should have 1 extra deck card");

    let check = |cards: &Vec<CardId>, expected: &[u32], player: u8, loc: u32| {
        for (i, &code) in expected.iter().enumerate() {
            let card = duel.data.get_card(cards[i]).expect("card exists");
            assert_eq!(card.code, code, "card code in place");
            assert_eq!(card.owner, player, "card owner");
            assert!(card.location & loc != 0, "card location");
        }
    };
    check(&deck0, &[1003, 1002, 1001], 0, LOCATION_DECK);
    check(&extra0, &[2001, 2002], 0, LOCATION_EXTRA);
    check(&deck1, &[3002, 3001], 1, LOCATION_DECK);
    check(&extra1, &[4001], 1, LOCATION_EXTRA);
}
