use osiris_core::card::Card;
use osiris_core::chain::{Chain, ChainLink};
use osiris_core::duel::Duel;
use osiris_core::effect::Effect;
use osiris_core::enums::{CardAttribute, CardRace, CardType, LOCATION_DECK, LOCATION_EXTRA,
    LOCATION_GRAVE, LOCATION_HAND, LOCATION_MZONE, PHASE_MAIN1, REASON_EFFECT, STATUS_DISABLED,
    STATUS_SUMMON_TURN};
use osiris_core::field::Field;
use osiris_core::mtrandom::Mt19937;
use osiris_core::processor::{ProcessResult, ProcessorType, ProcessorUnit};
use osiris_core::types::{CardId, EffectId};

#[test]
fn card_new_defaults() {
    let c = Card::new(123);
    assert_eq!(c.code, 123);
    assert_eq!(c.alias, 0);
    assert_eq!(c.location, 0);
    assert_eq!(c.current_stats.attack, 0);
}

#[test]
fn status_helpers_work() {
    let mut c = Card::new(1);
    assert!(!c.has_status(STATUS_DISABLED));
    c.set_status(STATUS_DISABLED);
    assert!(c.has_status(STATUS_DISABLED));
    c.clear_status(STATUS_DISABLED);
    assert!(!c.has_status(STATUS_DISABLED));
}

#[test]
fn sanity_check_types() {
    assert_eq!(std::mem::size_of::<CardType>(), std::mem::size_of::<u32>());
    assert_eq!(std::mem::size_of::<CardAttribute>(), std::mem::size_of::<u32>());
    assert_eq!(std::mem::size_of::<CardRace>(), std::mem::size_of::<u32>());
}

fn blank_link(id: u32, player: u8) -> ChainLink {
    ChainLink {
        effect_id: EffectId::new(id),
        trigger_player: player,
        check_player: player,
        target_cards: None,
        reason_effect: None,
        reason_player: player,
        evt_group: None,
        evt_player: 0,
        evt_value: 0,
        evt_effect: None,
        evt_reason: 0,
        evt_r_player: 0,
    }
}

#[test]
fn chain_add_and_resolve() {
    let mut c = Chain::new();
    let l1 = blank_link(1, 0);
    let l2 = blank_link(2, 1);
    c.add(l1);
    c.add(l2);
    let r = c.pop().expect("link");
    assert_eq!(r.effect_id.0, 2);
    let r2 = c.pop().expect("link2");
    assert_eq!(r2.effect_id.0, 1);
}

#[test]
fn field_new_empty() {
    let f = Field::new();
    assert_eq!(f.stack_len(0, LOCATION_DECK), 0);
    assert_eq!(f.stack_len(1, LOCATION_HAND), 0);
    assert!(f.mzone_at(0, 0).is_none());
    assert!(f.szone_at(1, 7).is_none());
    let mut f2 = f;
    f2.add_card(0, LOCATION_DECK, CardId::new(1), 0);
    assert_eq!(f2.stack_len(0, LOCATION_DECK), 1);
}

#[test]
fn add_and_remove_deck() {
    let mut f = Field::new();
    let id = CardId::new(42);
    f.add_card(0, LOCATION_DECK, id, 0);
    assert_eq!(f.stack_len(0, LOCATION_DECK), 1);
    assert_eq!(f.stack_cards(0, LOCATION_DECK)[0], id);
    let r = f.remove_card_from_stack(0, LOCATION_DECK, id).expect("should remove");
    assert_eq!(r, id);
    assert_eq!(f.stack_len(0, LOCATION_DECK), 0);
}

#[test]
fn add_and_remove_mzone() {
    let mut f = Field::new();
    let id = CardId::new(3);
    f.add_card(1, LOCATION_MZONE, id, 0);
    assert!(f.mzone_at(1, 0).is_some());
    assert_eq!(f.mzone_at(1, 0).unwrap(), id);
    let r = f.remove_card(1, LOCATION_MZONE, 0).expect("removed");
    assert_eq!(r, id);
    assert!(f.mzone_at(1, 0).is_none());
}

#[test]
fn find_empty_mzone_slot_works() {
    let mut f = Field::new();

    assert_eq!(f.find_empty_mzone_slot(0), Some(0));
    assert_eq!(f.find_empty_mzone_slot(1), Some(0));

    f.add_card(0, LOCATION_MZONE, CardId::new(1), 0);
    f.add_card(0, LOCATION_MZONE, CardId::new(2), 1);

    assert_eq!(f.find_empty_mzone_slot(0), Some(2));
    assert_eq!(f.find_empty_mzone_slot(1), Some(0));

    for i in 0..7 {
        f.add_card(0, LOCATION_MZONE, CardId::new(i as u32 + 10), i);
    }

    assert_eq!(f.find_empty_mzone_slot(0), None);
}

#[test]
fn mt19937_matches_reference() {
    let mut mt = Mt19937::new(5489);
    let expected: [u32; 10] = [
        3499211612, 581869302, 3890346734, 3586334585, 545404204, 4161255391, 3922919429,
        949333985, 2715962298, 1323567403,
    ];
    for &e in expected.iter() {
        assert_eq!(mt.gen_u32(), e);
    }
}

#[test]
fn test_mt19937_standard_values() {
    let mut mt = Mt19937::new(42);
    let first = mt.gen_u32();
    let second = mt.gen_u32();
    assert_eq!(first, 1608637542);
    assert_eq!(second, 3421126067);
}

#[test]
fn test_shuffle_algorithm() {
    let seed: u32 = 42;
    let mut mt = Mt19937::new(seed);

    let mut deck = vec![100, 200, 300, 400, 500, 600, 700];
    let original = deck.clone();
    let deck_len = deck.len();
    mt.shuffle_vector(&mut deck, 0, deck_len);

    assert_ne!(deck, original);
    let mut sorted = deck.clone();
    sorted.sort();
    assert_eq!(sorted, original);
}

#[test]
fn ranged_draws_stay_unbiased() {
    let mut mt = Mt19937::new(7);
    let mut counts = [0u32; 10];
    for _ in 0..10000 {
        let v = mt.get_next_integer(0, 9);
        counts[v as usize] += 1;
    }
    for &c in counts.iter() {
        assert!(c > 800 && c < 1200, "draws deviate too far from uniform");
    }
}

#[test]
fn effect_constructs() {
    let e = Effect::new(1, CardId::new(0), 10, 100, 0, 0, 0);
    assert_eq!(e.id, 1);
    assert_eq!(e.owner, CardId::new(0));
}

#[test]
fn create_card_assigns_index_owner() {
    let mut d = Duel::new(42);
    let id = d.create_card(12345, 1);
    assert_eq!(id.0, 0);
    let card = d.data.get_card(id).expect("card should exist");
    assert_eq!(card.code, 12345);
    assert_eq!(card.owner, 1);
}

#[test]
fn create_card_seq_and_mut_access() {
    let mut d = Duel::new(1);
    let a = d.create_card(1, 0);
    let b = d.create_card(2, 1);
    assert_ne!(a.0, b.0);
    d.data.cards[a.0 as usize].sequence = 5;
    assert_eq!(d.data.get_card(a).unwrap().sequence, 5);
}

#[test]
fn move_card_deck_to_hand_to_mzone() {
    let mut d = Duel::new(0);
    let id = d.create_card(1111, 0);
    let c = d.data.get_card(id).unwrap();
    assert!(c.location & LOCATION_DECK != 0);
    assert_eq!(d.data.field.stack_cards(0, LOCATION_DECK)[0], id);

    assert!(d.move_card(id, 0, LOCATION_HAND, 0));
    let c2 = d.data.get_card(id).unwrap();
    assert!(c2.location & LOCATION_HAND != 0);
    assert_eq!(d.data.field.stack_len(0, LOCATION_DECK), 0);
    assert_eq!(d.data.field.stack_cards(0, LOCATION_HAND)[0], id);

    assert!(d.move_card(id, 0, LOCATION_MZONE, 0));
    let c3 = d.data.get_card(id).unwrap();
    assert!(c3.location & LOCATION_MZONE != 0);
    assert_eq!(d.data.field.stack_len(0, LOCATION_HAND), 0);
    assert_eq!(d.data.field.mzone_at(0, 0).unwrap(), id);
}

#[test]
fn test_move_card_mechanics() {
    let mut d = Duel::new(0);
    let id = d.create_card(9999, 0);
    assert!(d.data.get_card(id).unwrap().location & LOCATION_DECK != 0);
    assert!(d.move_card(id, 0, LOCATION_HAND, 0));
    assert!(d.data.get_card(id).unwrap().location & LOCATION_HAND != 0);
    assert_eq!(d.data.field.stack_cards(0, LOCATION_HAND)[0], id);
    assert!(d.move_card(id, 0, LOCATION_MZONE, 2));
    assert!(d.data.get_card(id).unwrap().location & LOCATION_MZONE != 0);
    assert_eq!(d.data.field.mzone_at(0, 2).unwrap(), id);
    assert_eq!(d.data.field.stack_len(0, LOCATION_HAND), 0);
}

#[test]
fn move_into_occupied_zone_slot_fails() {
    let mut d = Duel::new(0);
    let a = d.create_card(1, 0);
    let b = d.create_card(2, 0);
    assert!(d.move_card(a, 0, LOCATION_MZONE, 3));
    let deck_before = d.data.field.stack_cards(0, LOCATION_DECK);
    let moved = d.move_card(b, 0, LOCATION_MZONE, 3);
    assert!(!moved, "a move into an occupied slot must fail");
    assert_eq!(d.data.field.mzone_at(0, 3).unwrap(), a);
    assert_eq!(d.data.field.stack_cards(0, LOCATION_DECK), deck_before);
    assert!(d.data.get_card(b).unwrap().location & LOCATION_DECK != 0);
}

#[test]
fn test_shuffle_deck_and_draw() {
    let mut d = Duel::new(42);
    for i in 0..10 {
        d.create_card(i + 1, 0);
    }
    let original = d.data.field.stack_cards(0, LOCATION_DECK);
    d.shuffle_deck(0);
    let shuffled = d.data.field.stack_cards(0, LOCATION_DECK);
    assert_eq!(original.len(), shuffled.len());
    let mut same = true;
    for i in 0..original.len() {
        if original[i] != shuffled[i] {
            same = false;
            break;
        }
    }
    assert!(!same, "shuffle should change deck order");
    let mut sorted_orig: Vec<u32> = original.iter().map(|c| c.0).collect();
    let mut sorted_shuf: Vec<u32> = shuffled.iter().map(|c| c.0).collect();
    sorted_orig.sort();
    sorted_shuf.sort();
    assert_eq!(sorted_orig, sorted_shuf, "shuffle must keep exactly the same cards");

    let mut d2 = Duel::new(100);
    for i in 0..5 {
        d2.create_card(i + 1, 0);
    }
    d2.draw(0, 2);
    assert_eq!(d2.data.field.stack_len(0, LOCATION_HAND), 2);
    assert_eq!(d2.data.field.stack_len(0, LOCATION_DECK), 3);
}

#[test]
fn draw_from_empty_deck_is_noop() {
    let mut d = Duel::new(5);
    d.draw(0, 3);
    assert_eq!(d.data.field.stack_len(0, LOCATION_HAND), 0);
    assert_eq!(d.data.field.stack_len(0, LOCATION_DECK), 0);
    assert_eq!(d.data.cards.len(), 0);
}

#[test]
fn register_effect_out_of_range_card_is_harmless() {
    let mut d = Duel::new(3);
    let e = Effect::new(0, CardId::new(0), 0, 0x77, 0, 0, 0);
    let eid = d.register_effect(e, Some(CardId::new(999)));
    assert_eq!(eid.0, 0);
    assert_eq!(d.data.effects.len(), 1);
    assert_eq!(d.data.cards.len(), 0);
}

#[test]
fn test_effect_registration() {
    let mut d = Duel::new(42);
    let card_id = d.create_card(123, 0);
    d.move_card(card_id, 0, LOCATION_HAND, 0);
    let mut e = Effect::new(0, card_id, 0, 0, 0, 0, 0);
    e.code = 123;
    d.register_effect(e, Some(card_id));
    let c = d.data.get_card(card_id).unwrap();
    assert!(!c.effects.is_empty(), "Card effects should contain the registered effect");
    assert!(d.data.effects.len() > 0, "Duel effects arena should have at least one effect");
    assert_eq!(d.data.effects[0].code, 123);
    assert_eq!(d.data.effects[0].owner, card_id);
}

#[test]
fn test_event_trigger() {
    let mut d = Duel::new(42);
    let card_id = d.create_card(400, 0);
    d.move_card(card_id, 0, LOCATION_HAND, 0);
    let e = Effect::new(0, card_id, 0, 0x1000, 0, 0, 0);
    d.register_effect(e, Some(card_id));
    assert!(d.data.triggered_effects.is_empty(), "No triggered effects initially");
    let summoned = d.summon(0, card_id, &vec![true]);
    assert!(summoned, "summon should work");
    let c = d.data.get_card(card_id).unwrap();
    assert!(!c.effects.is_empty(), "Card has effect attached");
    let eid = c.effects[0];
    assert!(
        d.data.triggered_effects.contains(&eid),
        "Effect should have been triggered by the event"
    );
    assert_eq!(d.data.effects[eid.0 as usize].code, 0x1000);
    assert!(d.data.get_card(card_id).unwrap().has_status(STATUS_SUMMON_TURN));
}

#[test]
fn test_condition_logic() {
    let mut d = Duel::new(42);
    let card_id = d.create_card(900, 0);
    d.move_card(card_id, 0, LOCATION_HAND, 0);
    let mut e_false = Effect::new(0, card_id, 0, 0x1000, 0, 0, 0);
    e_false.condition = Some(1);
    d.register_effect(e_false, Some(card_id));
    let mut e_true = Effect::new(0, card_id, 0, 0x1000, 0, 0, 0);
    e_true.condition = Some(2);
    d.register_effect(e_true, Some(card_id));
    assert!(d.data.triggered_effects.is_empty(), "No triggered effects initially");
    // The host evaluated the first condition to false and the second to true.
    let summoned = d.summon(0, card_id, &vec![false, true]);
    assert!(summoned, "summon should work");
    assert_eq!(d.data.triggered_effects.len(), 1, "Only one effect should be triggered");
    assert_eq!(d.data.triggered_effects[0].0, 1, "Second registered effect should be triggered");
}

#[test]
fn test_effect_resolution() {
    let mut d = Duel::new(42);
    let card_id = d.create_card(777, 0);
    d.move_card(card_id, 0, LOCATION_HAND, 0);
    let e = Effect::new(0, card_id, 0, 0x1000, 0, 0, 0);
    d.register_effect(e, Some(card_id));
    let summoned = d.summon(0, card_id, &vec![true]);
    assert!(summoned, "summon should work");
    assert_eq!(d.data.chain.links.len(), 1, "Chain should have one link");

    // Resolve: the host runs each link's operation; this one sends the
    // effect's handler to the grave, as the scripted operation would.
    let links = d.resolve_chain();
    assert_eq!(d.data.chain.links.len(), 0);
    for link in &links {
        let owner = d.data.effects[link.effect_id.0 as usize].owner;
        let who = d.data.get_card(owner).unwrap().owner;
        assert!(d.data.send_card_to(owner, who, LOCATION_GRAVE, REASON_EFFECT));
    }
    let c = d.data.get_card(card_id).expect("card exists");
    assert!(c.location & LOCATION_GRAVE != 0, "Card should be in grave after operation");
    assert_eq!(c.reason, REASON_EFFECT);
    assert!(d.data.field.stack_cards(0, LOCATION_GRAVE).contains(&card_id));
}

#[test]
fn test_chain_args_snapshot() {
    let mut d = Duel::new(42);
    let card_id = d.create_card(12345, 0);
    let e = Effect::new(1, card_id, 0, osiris_core::enums::EVENT_MOVE, 0, 0, 0);
    let eid = d.register_effect(e, Some(card_id));

    let mut group = osiris_core::group::Group::new();
    group.add_card(card_id);
    d.raise_event(osiris_core::enums::EVENT_MOVE, Some(group), 0, None, &vec![true]);

    assert!(!d.data.triggered_effects.is_empty(), "Effect should be triggered");
    assert!(!d.data.chain.links.is_empty(), "Chain should have links");

    let link = &d.data.chain.links[0];
    assert_eq!(link.effect_id, eid, "Effect ID should match");
    assert_eq!(link.trigger_player, 0, "trigger_player should be 0");
    assert_eq!(link.check_player, 0, "check_player should be 0");
    assert_eq!(link.evt_player, 0, "evt_player should be 0");
    assert_eq!(link.evt_value, 0, "evt_value should be 0");
    assert_eq!(link.evt_reason, 0, "evt_reason should be 0");
    assert_eq!(link.evt_r_player, 0, "evt_r_player should be 0");
    assert!(link.evt_group.is_some(), "evt_group should be Some");
    assert!(link.target_cards.is_some(), "target_cards should be Some");
    if let Some(ref g) = link.evt_group {
        assert!(g.contains(card_id), "Group should contain our card");
    }
}

#[test]
fn test_processor_event_integration() {
    let mut duel = Duel::new(1);

    assert_eq!(duel.process(), ProcessResult::Continue, "Turn -> Draw");
    assert_eq!(duel.process(), ProcessResult::Continue, "Draw -> PointEvent");

    assert!(duel.data.processor_units.len() > 0, "Should have processor units");
    assert_eq!(
        duel.data.processor_units[0].type_,
        ProcessorType::PointEvent,
        "Should be in PointEvent"
    );

    duel.data.triggered_effects.push(EffectId::new(1));

    assert_eq!(duel.process(), ProcessResult::Continue, "PointEvent -> SelectChain");
    assert_eq!(
        duel.data.processor_units[0].type_,
        ProcessorType::SelectChain,
        "Should be in SelectChain"
    );

    assert_eq!(duel.process(), ProcessResult::Waiting, "SelectChain step 0 should wait");
    assert_eq!(
        duel.data.processor_units[0].type_,
        ProcessorType::SelectChain,
        "Should still be in SelectChain"
    );
    assert_eq!(duel.data.processor_units[0].step, 1, "Step should be incremented to 1");

    assert_eq!(duel.process(), ProcessResult::Continue, "SelectChain step 1 should continue");

    assert!(duel.data.triggered_effects.is_empty(), "Triggered effects should be cleared");
    assert_eq!(
        duel.data.processor_units[0].type_,
        ProcessorType::PhaseEvent,
        "Should be in PhaseEvent"
    );
    assert_eq!(duel.data.processor_units[0].arg1, PHASE_MAIN1, "Should be in Main1 phase");
}

#[test]
fn interactive_chain_resolution_flow() {
    let mut duel = Duel::new(0);

    duel.data.processor_units.push_front(ProcessorUnit::new(ProcessorType::PointEvent, 0, 0, 0));
    duel.data.triggered_effects.push(EffectId::new(42));

    assert_eq!(duel.process(), ProcessResult::Continue, "PointEvent -> SelectChain");
    assert_eq!(
        duel.data.processor_units[0].type_,
        ProcessorType::SelectChain,
        "Should be in SelectChain"
    );

    assert_eq!(duel.process(), ProcessResult::Waiting, "SelectChain step 0 should wait for input");
    assert_eq!(duel.data.processor_units[0].step, 1, "Step should be incremented to 1");

    // The prompt describing the triggered effects went to the outbox.
    assert_eq!(duel.data.outbox.len(), 1);
    let (tag, payload) = osiris_core::messages::parse_packet(&duel.data.outbox[0]);
    assert_eq!(tag, osiris_core::messages::MsgType::SelectChain);
    assert_eq!(payload[1], 1, "one triggered effect is offered");
    assert_eq!(&payload[2..6], &42u32.to_le_bytes(), "the offered effect id is 42");

    duel.set_responsei(42);

    assert_eq!(duel.process(), ProcessResult::Continue, "SelectChain step 1 should build chain");
    assert_eq!(duel.data.response, 0, "Response should be reset after processing");
    assert_eq!(
        duel.data.processor_units[0].type_,
        ProcessorType::SolveChain,
        "Should be in SolveChain"
    );

    assert_eq!(duel.process(), ProcessResult::Continue, "SolveChain should resolve chain");
    assert_eq!(
        duel.data.processor_units[0].type_,
        ProcessorType::PhaseEvent,
        "Should be in PhaseEvent"
    );
    assert_eq!(duel.data.processor_units[0].arg1, PHASE_MAIN1, "Should be in Main1 phase");
}

#[test]
fn select_chain_pass_flow() {
    let mut duel = Duel::new(0);

    duel.data.processor_units.push_front(ProcessorUnit::new(ProcessorType::PointEvent, 0, 0, 0));
    duel.data.triggered_effects.push(EffectId::new(42));

    assert_eq!(duel.process(), ProcessResult::Continue);
    assert_eq!(duel.process(), ProcessResult::Waiting);

    duel.set_responsei(0);

    assert_eq!(duel.process(), ProcessResult::Continue);

    assert!(duel.data.triggered_effects.is_empty(), "Triggered effects should be cleared");
    assert_eq!(
        duel.data.processor_units[0].type_,
        ProcessorType::PhaseEvent,
        "Should be in PhaseEvent"
    );
    assert_eq!(duel.data.processor_units[0].arg1, PHASE_MAIN1, "Should be in Main1 phase");
}

#[test]
fn engine_runs_are_reproducible() {
    let run = || {
        let mut d = Duel::new(1234);
        for i in 0..12 {
            d.create_card(100 + i, 0);
            d.create_card(200 + i, 1);
        }
        d.shuffle_deck(0);
        d.shuffle_deck(1);
        d.draw(0, 5);
        d.draw(1, 5);
        let mut trace: Vec<u32> = Vec::new();
        for c in d.data.field.stack_cards(0, LOCATION_DECK) {
            trace.push(c.0);
        }
        for c in d.data.field.stack_cards(0, LOCATION_HAND) {
            trace.push(c.0);
        }
        for c in d.data.field.stack_cards(1, LOCATION_DECK) {
            trace.push(c.0);
        }
        trace.push(d.data.random.gen_u32());
        trace
    };
    assert_eq!(run(), run(), "two runs from the same seed must agree exactly");
}

#[test]
fn single_location_holds_after_moves() {
    let mut d = Duel::new(9);
    let mut ids = Vec::new();
    for i in 0..6 {
        ids.push(d.create_card(i + 1, 0));
    }
    d.move_card(ids[0], 0, LOCATION_HAND, 0);
    d.move_card(ids[1], 1, LOCATION_GRAVE, 0);
    d.move_card(ids[2], 0, LOCATION_MZONE, 4);
    d.move_card(ids[3], 0, LOCATION_EXTRA, 0);
    for id in &ids {
        let mut occurrences = 0;
        for p in 0..2u8 {
            for loc in [LOCATION_DECK, LOCATION_HAND, LOCATION_GRAVE, LOCATION_EXTRA] {
                occurrences +=
                    d.data.field.stack_cards(p, loc).iter().filter(|c| *c == id).count();
            }
            for s in 0..7 {
                if d.data.field.mzone_at(p, s) == Some(*id) {
                    occurrences += 1;
                }
            }
        }
        assert_eq!(occurrences, 1, "every card sits in exactly one place");
    }
    // A card in a zone records its slot as its sequence.
    let c = d.data.get_card(ids[2]).unwrap();
    assert_eq!(c.sequence, 4);
}

#[test]
fn metadata_stats_apply_on_creation() {
    let data = osiris_core::database::CardData {
        code: 555,
        alias: 0,
        setcode: 0,
        type_: 1,
        level: 4,
        attribute: 1,
        race: 1,
        attack: 2000,
        defense: 1500,
        lscale: 0,
        rscale: 0,
    };
    let mut duel = Duel::new(42);
    let id = duel.create_card_with_data(555, 0, &data);
    let card = duel.data.get_card(id).unwrap();
    assert_eq!(card.original_stats.attack, 2000);
    assert_eq!(card.original_stats.defense, 1500);
    assert_eq!(card.original_stats.base_attack, 2000);
    assert_eq!(card.original_stats.base_defense, 1500);
    assert_eq!(card.original_stats.level, 4);
}

#[test]
fn ranged_draws_stay_in_bounds() {
    let mut mt = Mt19937::new(3);
    for _ in 0..200 {
        let v = mt.get_next_integer(17, 23);
        assert!((17..=23).contains(&v));
    }
    let mut rng2 = Mt19937::new(3);
    for _ in 0..5 {
        let v = Duel::get_next_integer(&mut rng2, 5, 5);
        assert_eq!(v, 5);
    }
}

#[test]
fn group_holds_distinct_cards() {
    let mut g = osiris_core::group::Group::new();
    assert_eq!(g.count(), 0);
    g.add_card(CardId::new(4));
    g.add_card(CardId::new(4));
    g.add_card(CardId::new(9));
    assert_eq!(g.count(), 2);
    assert!(g.contains(CardId::new(4)));
    assert!(!g.contains(CardId::new(5)));
}

#[test]
fn event_bundles_its_fields() {
    let ev = osiris_core::event::Event::new(0x1000, None, 1, None);
    assert_eq!(ev.code, 0x1000);
    assert_eq!(ev.reason_player, 1);
    assert!(ev.reason_effect.is_none());
    assert!(ev.event_cards.is_none());
}

#[test]
fn ranged_draw_folds_the_accepted_word() {
    // With seed 5489 the first word is 3499211612; the rejection bound for a
    // range of ten is 2^32 mod 10 = 6, so the word is accepted and folded:
    // 5 + (3499211612 mod 10) = 7.
    let mut mt = Mt19937::new(5489);
    assert_eq!(mt.get_next_integer(5, 14), 7);
}

#[test]
fn shuffle_consumes_one_ranged_draw_per_position() {
    let mut a = Mt19937::new(99);
    let mut b = Mt19937::new(99);
    let mut v: Vec<u32> = (0..10).collect();
    a.shuffle_vector(&mut v, 0, 10);
    // Replay the documented algorithm with a twin generator: position i is
    // swapped with a draw from [i, last - 1], in increasing order of i.
    let mut w: Vec<u32> = (0..10).collect();
    for i in 0..9usize {
        let r = b.get_next_integer(i as u32, 9) as usize;
        w.swap(i, r);
    }
    assert_eq!(v, w, "the shuffle must consume ranged draws in position order");
    assert_eq!(a.gen_u32(), b.gen_u32(), "both generators must be equally advanced");
}

#[test]
fn draw_event_conditions_are_interactive() {
    let mut d = Duel::new(11);
    let card_id = d.create_card(321, 0);
    let mut e = Effect::new(0, card_id, 0, osiris_core::enums::EVENT_DRAW, 0, 0, 0);
    e.condition = Some(7);
    d.register_effect(e, Some(card_id));

    assert_eq!(d.process(), ProcessResult::Continue, "Turn -> Draw");
    // The draw happened, and the engine now waits for the condition outcome.
    assert_eq!(d.process(), ProcessResult::Waiting, "draw phase waits on the condition");
    assert_eq!(d.data.field.stack_len(0, LOCATION_HAND), 0, "deck was empty, nothing drawn");
    assert_eq!(d.data.processor_units[0].type_, ProcessorType::PhaseEvent);
    assert_eq!(d.data.processor_units[0].step, 1, "the unit moved to its second step");
    assert!(d.data.triggered_effects.is_empty(), "nothing triggered before the outcomes");

    d.set_condition_responses(vec![true]);
    assert_eq!(d.process(), ProcessResult::Continue, "the outcomes complete the draw phase");
    assert_eq!(d.data.triggered_effects.len(), 1, "the condition outcome triggered the effect");
    assert_eq!(
        d.data.processor_units[0].type_,
        ProcessorType::PointEvent,
        "the point event follows the draw phase"
    );
    assert!(d.data.cond_responses.is_empty(), "the outcome buffer is consumed");
}

#[test]
fn draw_event_false_condition_does_not_trigger() {
    let mut d = Duel::new(11);
    let card_id = d.create_card(321, 0);
    let mut e = Effect::new(0, card_id, 0, osiris_core::enums::EVENT_DRAW, 0, 0, 0);
    e.condition = Some(7);
    d.register_effect(e, Some(card_id));

    assert_eq!(d.process(), ProcessResult::Continue, "Turn -> Draw");
    assert_eq!(d.process(), ProcessResult::Waiting, "draw phase waits on the condition");
    d.set_condition_responses(vec![false]);
    assert_eq!(d.process(), ProcessResult::Continue);
    assert!(d.data.triggered_effects.is_empty(), "a false outcome does not trigger");
    assert!(d.data.chain.links.is_empty());
}
