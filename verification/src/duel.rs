//! The duel kernel: the card and effect arenas, the field, the chain, the
//! generator, the processor queue, and the mutation primitives that tie them
//! together.
//!
//! The central invariant ([`DuelView::inv`]) states that every card in the
//! arena sits in exactly one place on the field, that a card in a zone slot
//! records that slot as its sequence, and that every effect handle a card
//! lists names a live effect owned by that card.

use vstd::prelude::*;

use std::collections::VecDeque;

use crate::card::{Card, CardView, StatBlock};
use crate::chain::{Chain, ChainLink, ChainLinkView, group_opt_view};
use crate::counting::{count_of, lemma_count_push, lemma_count_update, lemma_count_remove,
    lemma_count_insert_front, lemma_count_at_least_one, lemma_count_zero};
use crate::database::CardData;
use crate::effect::Effect;
use crate::enums::{Location, Phase, CardStatus, LOCATION_DECK, LOCATION_HAND, LOCATION_EXTRA,
    LOCATION_GRAVE, LOCATION_REMOVED, LOCATION_MZONE, LOCATION_SZONE, PHASE_DRAW, PHASE_MAIN1,
    PHASE_MAIN2, STATUS_SUMMON_TURN, EVENT_DRAW, EVENT_SUMMON_SUCCESS};
use crate::field::{Field, FieldView, SideView, StackKind, ZoneKind, Place, place_of,
    lemma_location_places};
use crate::group::Group;
use crate::mtrandom::{Mt19937, MtView, seeded, next_output, next_state};
use crate::processor::{ProcessorUnit, ProcessorType, ProcessResult};
use crate::types::{CardId, EffectId};

verus! {

/// How often a card id occurs on one side of the field, over all five stacks
/// and both zone arrays.
pub open spec fn side_occ(s: SideView, id: CardId) -> int {
    count_of(s.deck, id) + count_of(s.hand, id) + count_of(s.grave, id) + count_of(
        s.remove,
        id,
    ) + count_of(s.extra, id) + count_of(s.mzone, Some(id)) + count_of(s.szone, Some(id)) as int
}

/// How often a card id occurs on the whole field.
pub open spec fn field_occ(f: FieldView, id: CardId) -> int {
    side_occ(f.p0, id) + side_occ(f.p1, id)
}

/// Mathematical model of the duel state.
#[verifier::ext_equal]
pub ghost struct DuelView {
    pub cards: Seq<CardView>,
    pub field: FieldView,
    pub random: MtView,
    pub chain: Seq<ChainLinkView>,
    pub units: Seq<ProcessorUnit>,
    pub phase: u32,
    pub turn: u32,
    pub turn_player: u8,
    pub lp: Seq<u32>,
    pub effects: Seq<Effect>,
    pub triggered: Seq<EffectId>,
    pub response: i32,
    pub cond_responses: Seq<bool>,
    pub outbox: Seq<Seq<u8>>,
}

impl DuelView {
    /// Card `i` of the arena sits in exactly one place on the field, the
    /// place its record names; a card in a zone slot records the slot index
    /// as its sequence. For stack members only membership is invariant: a
    /// stack card's recorded sequence is exact when the card is placed
    /// ([`moved_state`] pins it to the appended index) but is not rewritten
    /// when earlier stack positions later shift — a shuffle, a draw from the
    /// middle, or an insertion at the bottom leaves bystanders' recorded
    /// sequences stale, and stack reads go by position, never by the record.
    pub open spec fn placed(self, i: int) -> bool {
        let c = self.cards[i];
        let id = CardId(i as u32);
        &&& c.controller < 2
        &&& field_occ(self.field, id) == 1
        &&& match place_of(c.location) {
            Place::Stack(k) => count_of(self.field.stack(c.controller as int, k), id) == 1,
            Place::Zone(z) => c.sequence < self.field.zone(c.controller as int, z).len()
                && self.field.zone(c.controller as int, z)[c.sequence as int] == Some(id),
            Place::Nowhere => false,
        }
    }

    /// Every effect handle a card lists names a live effect whose owner is
    /// that card.
    pub open spec fn effects_owned(self) -> bool {
        forall|i: int, j: int|
            0 <= i < self.cards.len() && 0 <= j < self.cards[i].effects.len() ==> ((
            #[trigger] self.cards[i].effects[j]).0 < self.effects.len()
                && self.effects[self.cards[i].effects[j].0 as int].owner == CardId(i as u32))
    }

    /// The duel invariant: a well-shaped field and generator, and the
    /// single-location, zone-sequence and effect-ownership properties.
    /// Sequence agreement is stated for zone slots; see [`DuelView::placed`]
    /// for why stack sequences are pinned only at placement time.
    pub open spec fn inv(self) -> bool {
        &&& self.field.wf()
        &&& self.random.wf()
        &&& self.lp.len() == 2
        &&& self.cards.len() <= u32::MAX
        &&& self.effects.len() <= u32::MAX
        &&& self.turn_player < 2
        &&& forall|i: int| 0 <= i < self.cards.len() ==> #[trigger] self.placed(i)
        &&& forall|id: u32|
            id >= self.cards.len() ==> #[trigger] field_occ(self.field, CardId(id)) == 0
        &&& self.effects_owned()
    }
}

/// Single location: under the duel invariant, every card of the arena occurs
/// exactly once across all stacks and zone slots of the field, and the one
/// occurrence is in the container its record names.
pub proof fn lemma_single_location(v: DuelView, i: int)
    requires
        v.inv(),
        0 <= i < v.cards.len(),
    ensures
        field_occ(v.field, CardId(i as u32)) == 1,
        match place_of(v.cards[i].location) {
            Place::Stack(k) => count_of(
                v.field.stack(v.cards[i].controller as int, k),
                CardId(i as u32),
            ) == 1,
            Place::Zone(z) => v.field.zone(v.cards[i].controller as int, z)[v.cards[i].sequence
                as int] == Some(CardId(i as u32)),
            Place::Nowhere => false,
        },
{
    assert(v.placed(i));
}

/// Zone-sequence agreement: under the duel invariant, a card whose record
/// names a zone sits exactly at the slot its recorded sequence names.
pub proof fn lemma_zone_sequence_agreement(v: DuelView, i: int)
    requires
        v.inv(),
        0 <= i < v.cards.len(),
        place_of(v.cards[i].location) is Zone,
    ensures
        (v.cards[i].sequence as int) < v.field.zone(
            v.cards[i].controller as int,
            place_of(v.cards[i].location)->Zone_0,
        ).len(),
        v.field.zone(v.cards[i].controller as int, place_of(v.cards[i].location)->Zone_0)[
            v.cards[i].sequence as int] == Some(CardId(i as u32)),
{
    assert(v.placed(i));
}

/// Effect ownership: under the duel invariant, every effect id a card lists
/// indexes a live effect whose recorded owner is that card.
pub proof fn lemma_effect_ownership(v: DuelView, i: int, j: int)
    requires
        v.inv(),
        0 <= i < v.cards.len(),
        0 <= j < v.cards[i].effects.len(),
    ensures
        v.cards[i].effects[j].0 < v.effects.len(),
        v.effects[v.cards[i].effects[j].0 as int].owner == CardId(i as u32),
{
}

/// Whether a move of `card_id` to the given destination can go ahead: the
/// card exists, and the destination is a stack or a free in-range zone slot.
pub open spec fn move_allowed(
    v: DuelView,
    card_id: CardId,
    tp: u8,
    tloc: Location,
    tseq: u8,
) -> bool {
    &&& card_id.0 < v.cards.len()
    &&& match place_of(tloc) {
        Place::Stack(_) => true,
        Place::Zone(z) => (tseq as int) < v.field.zone(tp as int, z).len() && v.field.zone(
            tp as int,
            z,
        )[tseq as int] is None,
        Place::Nowhere => false,
    }
}

/// `si` names the occurrence that removal takes out of the source container:
/// a position of the card in its stack, or the recorded zone slot.
pub open spec fn source_index_ok(f: FieldView, c0: CardView, id: CardId, si: int) -> bool {
    match place_of(c0.location) {
        Place::Stack(sk) => 0 <= si < f.stack(c0.controller as int, sk).len() && f.stack(
            c0.controller as int,
            sk,
        )[si] == id,
        Place::Zone(_) => si == c0.sequence as int,
        Place::Nowhere => false,
    }
}

/// The field after the source container gave up the card.
pub open spec fn removed_field(f: FieldView, sp: int, sloc: Location, sseq: u8, si: int)
    -> FieldView {
    match place_of(sloc) {
        Place::Stack(sk) => f.set_stack(sp, sk, f.stack(sp, sk).remove(si)),
        Place::Zone(sz) => f.set_zone(sp, sz, f.zone(sp, sz).update(sseq as int, None)),
        Place::Nowhere => f,
    }
}

/// The field after the destination took the card in.
pub open spec fn added_field(f: FieldView, tp: int, tloc: Location, tseq: u8, id: CardId)
    -> FieldView {
    match place_of(tloc) {
        Place::Stack(tk) => f.set_stack(tp, tk, f.stack(tp, tk).push(id)),
        Place::Zone(tz) => f.set_zone(tp, tz, f.zone(tp, tz).update(tseq as int, Some(id))),
        Place::Nowhere => f,
    }
}

/// The sequence recorded on the moved card: the index it was appended at for
/// a stack, the slot index for a zone.
pub open spec fn moved_sequence(fmid: FieldView, tp: int, tloc: Location, tseq: u8) -> u8 {
    match place_of(tloc) {
        Place::Stack(tk) => fmid.stack(tp, tk).len() as u8,
        Place::Zone(_) => tseq,
        Place::Nowhere => 0,
    }
}

/// The exact state transition of a successful move: the source container
/// gave up the card at some occurrence `si`, the destination took it in, the
/// card's record was rewritten, and nothing else changed.
pub open spec fn moved_state(
    v0: DuelView,
    v1: DuelView,
    id: CardId,
    tp: u8,
    tloc: Location,
    tseq: u8,
) -> bool {
    &&& exists|si: int|
        #![trigger removed_field(v0.field, v0.cards[id.0 as int].controller as int, v0.cards[id.0 as int].location, v0.cards[id.0 as int].sequence, si)]
        {
            let c0 = v0.cards[id.0 as int];
            let fmid = removed_field(v0.field, c0.controller as int, c0.location, c0.sequence, si);
            &&& source_index_ok(v0.field, c0, id, si)
            &&& v1.field == added_field(fmid, tp as int, tloc, tseq, id)
            &&& v1.cards == v0.cards.update(
                id.0 as int,
                CardView {
                    controller: tp,
                    location: tloc,
                    sequence: moved_sequence(fmid, tp as int, tloc, tseq),
                    ..c0
                },
            )
        }
    &&& v1.random == v0.random
    &&& v1.chain == v0.chain
    &&& v1.units == v0.units
    &&& v1.phase == v0.phase
    &&& v1.turn == v0.turn
    &&& v1.turn_player == v0.turn_player
    &&& v1.lp == v0.lp
    &&& v1.effects == v0.effects
    &&& v1.triggered == v0.triggered
    &&& v1.response == v0.response
    &&& v1.cond_responses == v0.cond_responses
    &&& v1.outbox == v0.outbox
}

/// Replacing one stack changes a card's occurrence count by the difference
/// of its counts in the new and old stack.
proof fn lemma_occ_set_stack(f: FieldView, p: int, k: StackKind, s: Seq<CardId>, x: CardId)
    requires
        0 <= p < 2,
    ensures
        field_occ(f.set_stack(p, k, s), x) == field_occ(f, x) - count_of(f.stack(p, k), x)
            + count_of(s, x),
{
}

/// Replacing one zone array changes a card's occurrence count by the
/// difference of its counts in the new and old array.
proof fn lemma_occ_set_zone(f: FieldView, p: int, z: ZoneKind, s: Seq<Option<CardId>>, x: CardId)
    requires
        0 <= p < 2,
    ensures
        field_occ(f.set_zone(p, z, s), x) == field_occ(f, x) - count_of(f.zone(p, z), Some(x))
            + count_of(s, Some(x)),
{
}

/// Removal takes exactly one occurrence of the moved card out of the field
/// and leaves every other card's counts, every stack the card was not in,
/// and every zone slot not holding it untouched.
proof fn lemma_removed_occ(
    v0: DuelView,
    fmid: FieldView,
    id: CardId,
    sp: int,
    sloc: Location,
    sseq: u8,
    si: int,
)
    requires
        v0.inv(),
        id.0 < v0.cards.len(),
        v0.cards[id.0 as int].controller as int == sp,
        v0.cards[id.0 as int].location == sloc,
        v0.cards[id.0 as int].sequence == sseq,
        source_index_ok(v0.field, v0.cards[id.0 as int], id, si),
        fmid == removed_field(v0.field, sp, sloc, sseq, si),
    ensures
        fmid.wf(),
        field_occ(fmid, id) == 0,
        forall|x: CardId| x != id ==> field_occ(fmid, x) == field_occ(v0.field, x),
        forall|q: int, k: StackKind, x: CardId|
            0 <= q < 2 && x != id ==> #[trigger] count_of(fmid.stack(q, k), x) == count_of(
                v0.field.stack(q, k),
                x,
            ),
        forall|q: int, z: ZoneKind|
            0 <= q < 2 ==> (#[trigger] fmid.zone(q, z)).len() == v0.field.zone(q, z).len(),
        forall|q: int, z: ZoneKind, m: int|
            0 <= q < 2 && 0 <= m < v0.field.zone(q, z).len() && v0.field.zone(q, z)[m] != Some(id)
                ==> #[trigger] fmid.zone(q, z)[m] == v0.field.zone(q, z)[m],
    {
    assert(v0.placed(id.0 as int));
    match place_of(sloc) {
        Place::Stack(sk) => {
            let st = v0.field.stack(sp, sk);
            assert forall|x: CardId|
                field_occ(fmid, x) == field_occ(v0.field, x) - (if x == id {
                    1int
                } else {
                    0int
                }) by {
                lemma_count_remove(st, si, x);
                lemma_occ_set_stack(v0.field, sp, sk, st.remove(si), x);
            }
            assert forall|q: int, k: StackKind, x: CardId|
                0 <= q < 2 && x != id implies #[trigger] count_of(fmid.stack(q, k), x) == count_of(
                v0.field.stack(q, k),
                x,
            ) by {
                if q == sp && k == sk {
                    lemma_count_remove(st, si, x);
                } else {
                    assert(fmid.stack(q, k) == v0.field.stack(q, k));
                }
            }
        },
        Place::Zone(sz) => {
            let zn = v0.field.zone(sp, sz);
            assert(zn[sseq as int] == Some(id));
            assert forall|x: CardId|
                field_occ(fmid, x) == field_occ(v0.field, x) - (if x == id {
                    1int
                } else {
                    0int
                }) by {
                lemma_count_update(zn, sseq as int, None, Some(x));
                lemma_occ_set_zone(v0.field, sp, sz, zn.update(sseq as int, None), x);
            }
        },
        Place::Nowhere => {
            assert(false);
        },
    }
}

/// A successful move preserves the duel invariant.
#[verifier::rlimit(100)]
proof fn lemma_move_card_invariant(
    v0: DuelView,
    v1: DuelView,
    fmid: FieldView,
    id: CardId,
    sp: int,
    sloc: Location,
    sseq: u8,
    si: int,
    tp: u8,
    tloc: Location,
    tseq: u8,
)
    requires
        v0.inv(),
        id.0 < v0.cards.len(),
        v0.cards[id.0 as int].controller as int == sp,
        v0.cards[id.0 as int].location == sloc,
        v0.cards[id.0 as int].sequence == sseq,
        tp < 2,
        move_allowed(v0, id, tp, tloc, tseq),
        source_index_ok(v0.field, v0.cards[id.0 as int], id, si),
        fmid == removed_field(v0.field, sp, sloc, sseq, si),
        v1.field == added_field(fmid, tp as int, tloc, tseq, id),
        v1.cards == v0.cards.update(
            id.0 as int,
            CardView {
                controller: tp,
                location: tloc,
                sequence: moved_sequence(fmid, tp as int, tloc, tseq),
                ..v0.cards[id.0 as int]
            },
        ),
        v1.random == v0.random,
        v1.chain == v0.chain,
        v1.units == v0.units,
        v1.phase == v0.phase,
        v1.turn == v0.turn,
        v1.turn_player == v0.turn_player,
        v1.lp == v0.lp,
        v1.effects == v0.effects,
        v1.triggered == v0.triggered,
        v1.response == v0.response,
        v1.cond_responses == v0.cond_responses,
        v1.outbox == v0.outbox,
    ensures
        v1.inv(),
        moved_state(v0, v1, id, tp, tloc, tseq),
{
    let i = id.0 as int;
    let c0 = v0.cards[i];
    assert(v0.placed(i));
    lemma_removed_occ(v0, fmid, id, sp, sloc, sseq, si);

    // The target zone slot is still free after removal.
    if place_of(tloc) is Zone {
        let tz = place_of(tloc)->Zone_0;
        assert(fmid.zone(tp as int, tz)[tseq as int] is None);
    }

    // Insertion raises the moved card's count back to one and changes no
    // other card's count.
    assert forall|x: CardId|
        field_occ(v1.field, x) == field_occ(fmid, x) + (if x == id {
            1int
        } else {
            0int
        }) by {
        match place_of(tloc) {
            Place::Stack(tk) => {
                lemma_count_push(fmid.stack(tp as int, tk), id, x);
                lemma_occ_set_stack(
                    fmid,
                    tp as int,
                    tk,
                    fmid.stack(tp as int, tk).push(id),
                    x,
                );
            },
            Place::Zone(tz) => {
                lemma_count_update(fmid.zone(tp as int, tz), tseq as int, Some(id), Some(x));
                lemma_occ_set_zone(
                    fmid,
                    tp as int,
                    tz,
                    fmid.zone(tp as int, tz).update(tseq as int, Some(id)),
                    x,
                );
            },
            Place::Nowhere => {
                assert(false);
            },
        }
    }

    // Stack counts of other cards carry over from the mid state.
    assert forall|q: int, k: StackKind, x: CardId|
        0 <= q < 2 && x != id implies #[trigger] count_of(v1.field.stack(q, k), x) == count_of(
        fmid.stack(q, k),
        x,
    ) by {
        match place_of(tloc) {
            Place::Stack(tk) => {
                if q == tp as int && k == tk {
                    lemma_count_push(fmid.stack(q, k), id, x);
                } else {
                    assert(v1.field.stack(q, k) == fmid.stack(q, k));
                }
            },
            _ => {
                assert(v1.field.stack(q, k) == fmid.stack(q, k));
            },
        }
    }

    // Zone lengths and foreign zone slots carry over as well.
    assert(forall|q: int, z: ZoneKind|
        0 <= q < 2 ==> (#[trigger] v1.field.zone(q, z)).len() == fmid.zone(q, z).len());
    assert forall|q: int, z: ZoneKind, m: int|
        0 <= q < 2 && 0 <= m < fmid.zone(q, z).len() && fmid.zone(q, z)[m] is Some implies (
    #[trigger] v1.field.zone(q, z)[m]) == fmid.zone(q, z)[m] by {
        match place_of(tloc) {
            Place::Zone(tz) => {
                if q == tp as int && z == tz && m == tseq as int {
                    assert(fmid.zone(q, z)[m] is None);
                }
            },
            _ => {},
        }
    }

    assert forall|j: int| 0 <= j < v1.cards.len() implies #[trigger] v1.placed(j) by {
        if j == i {
            assert(field_occ(v1.field, id) == 1);
            match place_of(tloc) {
                Place::Stack(tk) => {
                    assert(count_of(fmid.stack(tp as int, tk), id) == 0) by {
                        assert(field_occ(fmid, id) == 0);
                    }
                    lemma_count_push(fmid.stack(tp as int, tk), id, id);
                    assert(v1.field.stack(tp as int, tk) == fmid.stack(tp as int, tk).push(id));
                },
                Place::Zone(tz) => {
                    assert(v1.field.zone(tp as int, tz)[tseq as int] == Some(id));
                },
                Place::Nowhere => {
                    assert(false);
                },
            }
        } else {
            assert(v0.placed(j));
            let cj = v0.cards[j];
            let idj = CardId(j as u32);
            assert(idj != id);
            assert(v1.cards[j] == cj);
            match place_of(cj.location) {
                Place::Stack(k) => {
                    assert(count_of(v1.field.stack(cj.controller as int, k), idj) == count_of(
                        v0.field.stack(cj.controller as int, k),
                        idj,
                    ));
                },
                Place::Zone(z) => {
                    assert(v0.field.zone(cj.controller as int, z)[cj.sequence as int] == Some(
                        idj,
                    ));
                    assert(fmid.zone(cj.controller as int, z)[cj.sequence as int] == Some(idj));
                    assert(v1.field.zone(cj.controller as int, z)[cj.sequence as int] == Some(
                        idj,
                    ));
                },
                Place::Nowhere => {
                    assert(false);
                },
            }
        }
    }

    assert forall|idu: u32| idu >= v1.cards.len() implies #[trigger] field_occ(
        v1.field,
        CardId(idu),
    ) == 0 by {
        assert(CardId(idu) != id);
        assert(field_occ(v0.field, CardId(idu)) == 0);
    }

    assert(v1.effects_owned()) by {
        assert forall|a: int, b: int|
            0 <= a < v1.cards.len() && 0 <= b < v1.cards[a].effects.len() implies ((
        #[trigger] v1.cards[a].effects[b]).0 < v1.effects.len()
            && v1.effects[v1.cards[a].effects[b].0 as int].owner == CardId(a as u32)) by {
            assert(v1.cards[a].effects == v0.cards[a].effects);
            assert(v0.cards[a].effects[b] == v1.cards[a].effects[b]);
        }
    }

    assert(moved_state(v0, v1, id, tp, tloc, tseq)) by {
        assert(fmid == removed_field(v0.field, c0.controller as int, c0.location, c0.sequence, si));
    }
}

/// The record of a freshly created card: the given code, owner and
/// controller, placed at the bottom of the owner's deck, everything else
/// zeroed.
pub open spec fn created_card(code: u32, owner: u8) -> CardView {
    CardView {
        code: code,
        alias: 0,
        original_stats: StatBlock::spec_zeroed(),
        current_stats: StatBlock::spec_zeroed(),
        location: LOCATION_DECK,
        sequence: 0,
        position: 0,
        owner: owner,
        controller: owner,
        reason: 0,
        status: 0,
        effects: Seq::empty(),
    }
}

/// A fresh card whose printed stats come from a metadata row.
pub open spec fn created_card_with(code: u32, owner: u8, d: CardData) -> CardView {
    CardView {
        original_stats: StatBlock {
            level: d.level,
            attack: d.attack,
            defense: d.defense,
            base_attack: d.attack,
            base_defense: d.defense,
            ..StatBlock::spec_zeroed()
        },
        ..created_card(code, owner)
    }
}

/// The state after one card left the top of a player's deck for their hand:
/// the drawn card's record moves to the hand location with the appended
/// index as its sequence. An empty deck changes nothing.
pub open spec fn spec_draw_one(v: DuelView, p: u8) -> DuelView {
    let deck = v.field.stack(p as int, StackKind::Deck);
    if deck.len() == 0 {
        v
    } else {
        let id = deck.last();
        let hand = v.field.stack(p as int, StackKind::Hand);
        DuelView {
            field: v.field.set_stack(p as int, StackKind::Deck, deck.drop_last()).set_stack(
                p as int,
                StackKind::Hand,
                hand.push(id),
            ),
            cards: v.cards.update(
                id.0 as int,
                CardView {
                    location: LOCATION_HAND,
                    sequence: hand.len() as u8,
                    ..v.cards[id.0 as int]
                },
            ),
            ..v
        }
    }
}

/// The state after `n` draws for player `p`.
pub open spec fn spec_draw(v: DuelView, p: u8, n: int) -> DuelView
    decreases n,
{
    if n <= 0 {
        v
    } else {
        spec_draw_one(spec_draw(v, p, n - 1), p)
    }
}

/// Drawing any number of cards from an empty deck changes nothing.
pub proof fn lemma_draw_from_empty_deck(v: DuelView, p: u8, n: int)
    requires
        v.field.stack(p as int, StackKind::Deck).len() == 0,
    ensures
        spec_draw(v, p, n) == v,
    decreases n,
{
    if n > 0 {
        lemma_draw_from_empty_deck(v, p, n - 1);
    }
}

/// Whether a candidate effect becomes triggered: an effect without a
/// condition callback always triggers; one with a condition triggers when
/// the callback returned true.
pub open spec fn trigger_fires(effects: Seq<Effect>, eid: EffectId, cond: bool) -> bool {
    effects[eid.0 as int].condition is None || cond
}

/// The triggered ids among the first `n` candidates, in candidate order.
pub open spec fn triggered_upto(
    effects: Seq<Effect>,
    cands: Seq<EffectId>,
    conds: Seq<bool>,
    n: int,
) -> Seq<EffectId>
    decreases n,
{
    if n <= 0 {
        Seq::empty()
    } else {
        let p = triggered_upto(effects, cands, conds, n - 1);
        if trigger_fires(effects, cands[n - 1], conds[n - 1]) {
            p.push(cands[n - 1])
        } else {
            p
        }
    }
}

/// The effect ids a raised event triggers: the candidates matching the code,
/// filtered by their condition results, in candidate order.
pub open spec fn spec_triggered(effects: Seq<Effect>, code: u32, conds: Seq<bool>) -> Seq<
    EffectId,
> {
    triggered_upto(effects, spec_matching(effects, code), conds, spec_matching(
        effects,
        code,
    ).len() as int)
}

/// The chain link recorded for a triggered effect: the event context —
/// cards, players, value, reason — is copied at trigger time and frozen.
pub open spec fn link_of(
    eid: EffectId,
    cards_v: Option<Seq<CardId>>,
    reason_player: u8,
    reason_effect: Option<EffectId>,
) -> ChainLinkView {
    ChainLinkView {
        effect_id: eid,
        trigger_player: reason_player,
        check_player: 0,
        target_cards: cards_v,
        reason_effect: reason_effect,
        reason_player: reason_player,
        evt_group: cards_v,
        evt_player: reason_player,
        evt_value: 0,
        evt_effect: reason_effect,
        evt_reason: 0,
        evt_r_player: reason_player,
    }
}

/// The state after an event was raised: the triggered ids are appended to
/// the trigger buffer, and one frozen link per triggered id is appended to
/// the chain. Nothing else changes.
pub open spec fn spec_raise(
    v: DuelView,
    code: u32,
    cards_v: Option<Seq<CardId>>,
    rp: u8,
    re: Option<EffectId>,
    conds: Seq<bool>,
) -> DuelView {
    DuelView {
        triggered: v.triggered + spec_triggered(v.effects, code, conds),
        chain: v.chain + spec_triggered(v.effects, code, conds).map_values(
            |e: EffectId| link_of(e, cards_v, rp, re),
        ),
        ..v
    }
}

/// The standard argument tuple handed to an effect callback:
/// `(effect, trigger player, event cards, event player, event value,
/// reason effect, event reason, reason player)`.
pub open spec fn spec_callback_args(
    eid: EffectId,
    trigger_player: u8,
    cards_v: Option<Seq<CardId>>,
    event_player: u8,
    event_value: u32,
    reason_effect: Option<EffectId>,
    event_reason: u32,
    reason_player: u8,
) -> (EffectId, u8, Option<Seq<CardId>>, u8, u32, Option<EffectId>, u32, u8) {
    (eid, trigger_player, cards_v, event_player, event_value, reason_effect, event_reason,
    reason_player)
}

/// The argument tuple a condition callback sees when the event is raised.
pub open spec fn spec_condition_args(
    eid: EffectId,
    cards_v: Option<Seq<CardId>>,
    reason_player: u8,
    reason_effect: Option<EffectId>,
) -> (EffectId, u8, Option<Seq<CardId>>, u8, u32, Option<EffectId>, u32, u8) {
    spec_callback_args(eid, reason_player, cards_v, reason_player, 0, reason_effect, 0,
        reason_player)
}

/// The argument tuple an operation callback sees at resolution, rebuilt from
/// the link's frozen context alone.
pub open spec fn spec_link_args(l: ChainLinkView) -> (
    EffectId,
    u8,
    Option<Seq<CardId>>,
    u8,
    u32,
    Option<EffectId>,
    u32,
    u8,
) {
    spec_callback_args(
        l.effect_id,
        l.trigger_player,
        l.evt_group,
        l.evt_r_player,
        l.evt_value,
        l.evt_effect,
        l.evt_reason,
        l.evt_r_player,
    )
}

/// Snapshot immutability: the arguments rebuilt from a chain link at
/// resolution equal the arguments the condition saw at trigger time, however
/// the live duel state has changed in between.
pub proof fn lemma_snapshot_immutable(
    eid: EffectId,
    cards_v: Option<Seq<CardId>>,
    reason_player: u8,
    reason_effect: Option<EffectId>,
)
    ensures
        spec_link_args(link_of(eid, cards_v, reason_player, reason_effect))
            == spec_condition_args(eid, cards_v, reason_player, reason_effect),
{
}

/// The duel state: arenas, field, generator, chain, processor queue, scores
/// and the latest interactive response.
#[derive(Debug)]
pub struct DuelData {
    pub cards: Vec<Card>,
    pub field: Field,
    pub random: Mt19937,
    pub chain: Chain,
    pub processor_units: VecDeque<ProcessorUnit>,
    pub phase: Phase,
    pub turn: u32,
    pub turn_player: u8,
    pub lp: [u32; 2],
    pub effects: Vec<Effect>,
    pub triggered_effects: Vec<EffectId>,
    pub response: i32,
    pub cond_responses: Vec<bool>,
    pub outbox: Vec<Vec<u8>>,
}

impl View for DuelData {
    type V = DuelView;

    open spec fn view(&self) -> DuelView {
        DuelView {
            cards: Seq::new(self.cards@.len(), |i: int| self.cards@[i]@),
            field: self.field@,
            random: self.random@,
            chain: self.chain@,
            units: self.processor_units@,
            phase: self.phase,
            turn: self.turn,
            turn_player: self.turn_player,
            lp: self.lp@,
            effects: self.effects@,
            triggered: self.triggered_effects@,
            response: self.response,
            cond_responses: self.cond_responses@,
            outbox: Seq::new(self.outbox@.len(), |i: int| self.outbox@[i]@),
        }
    }
}

/// The effect ids whose records, among the first `n` of `effects`, carry the
/// given event code, in arena order.
pub open spec fn matching_upto(effects: Seq<Effect>, code: u32, n: int) -> Seq<EffectId>
    decreases n,
{
    if n <= 0 {
        Seq::empty()
    } else {
        let p = matching_upto(effects, code, n - 1);
        if effects[n - 1].code == code {
            p.push(EffectId((n - 1) as u32))
        } else {
            p
        }
    }
}

/// The effect ids whose records carry the given event code, in arena order.
pub open spec fn spec_matching(effects: Seq<Effect>, code: u32) -> Seq<EffectId> {
    matching_upto(effects, code, effects.len() as int)
}

/// Every id the candidate scan returns indexes the arena, and its record
/// carries the scanned code.
pub proof fn lemma_matching_props(effects: Seq<Effect>, code: u32, n: int)
    requires
        0 <= n <= effects.len(),
        effects.len() <= u32::MAX,
    ensures
        forall|j: int|
            0 <= j < matching_upto(effects, code, n).len() ==> ((#[trigger] matching_upto(
                effects,
                code,
                n,
            )[j]).0 < n && effects[matching_upto(effects, code, n)[j].0 as int].code == code),
    decreases n,
{
    if n > 0 {
        lemma_matching_props(effects, code, n - 1);
    }
}

impl DuelData {
    /// A copy of the card record behind an id, while the id is in range.
    pub fn get_card(&self, id: CardId) -> (r: Option<Card>)
        ensures
            match r {
                Some(c) => id.0 < self@.cards.len() && c@ == self@.cards[id.0 as int],
                None => id.0 >= self@.cards.len(),
            },
    {
        let index = id.as_u32() as usize;
        if index < self.cards.len() {
            Some(self.cards[index].clone())
        } else {
            None
        }
    }

    /// Append an effect to the arena; when an existing card is named, the
    /// effect's owner is stamped to it and the new id is added to the card's
    /// effect list. Naming a card outside the arena registers the effect
    /// without attaching it.
    pub fn register_effect(&mut self, effect: Effect, owner_card: Option<CardId>) -> (r: EffectId)
        requires
            old(self)@.inv(),
            old(self)@.effects.len() < u32::MAX,
        ensures
            final(self)@.inv(),
            r.0 == old(self)@.effects.len(),
            final(self)@ == match owner_card {
                Some(cid) => if cid.0 < old(self)@.cards.len() {
                    DuelView {
                        effects: old(self)@.effects.push(
                            Effect { owner: cid, ..effect },
                        ),
                        cards: old(self)@.cards.update(
                            cid.0 as int,
                            CardView {
                                effects: old(self)@.cards[cid.0 as int].effects.push(r),
                                ..old(self)@.cards[cid.0 as int]
                            },
                        ),
                        ..old(self)@
                    }
                } else {
                    DuelView { effects: old(self)@.effects.push(effect), ..old(self)@ }
                },
                None => DuelView { effects: old(self)@.effects.push(effect), ..old(self)@ },
            },
    {
        let ghost pre = self@;
        let id = EffectId::new(self.effects.len() as u32);
        let mut stamped = effect;
        let attach = match owner_card {
            Some(cid) => {
                if (cid.0 as usize) < self.cards.len() {
                    stamped.owner = cid;
                    true
                } else {
                    false
                }
            },
            None => false,
        };
        self.effects.push(stamped);
        if attach {
            let cid = owner_card.unwrap();
            let cidx = cid.0 as usize;
            self.cards[cidx].effects.push(id);
            proof {
                assert(self@.cards =~= pre.cards.update(
                    cid.0 as int,
                    CardView {
                        effects: pre.cards[cid.0 as int].effects.push(id),
                        ..pre.cards[cid.0 as int]
                    },
                ));
                assert(self@ =~= (DuelView {
                    effects: pre.effects.push(Effect { owner: cid, ..effect }),
                    cards: pre.cards.update(
                        cid.0 as int,
                        CardView {
                            effects: pre.cards[cid.0 as int].effects.push(id),
                            ..pre.cards[cid.0 as int]
                        },
                    ),
                    ..pre
                }));
                assert forall|i: int| 0 <= i < self@.cards.len() implies #[trigger] self@.placed(
                    i,
                ) by {
                    assert(pre.placed(i));
                    assert(self@.cards[i].controller == pre.cards[i].controller);
                    assert(self@.cards[i].location == pre.cards[i].location);
                    assert(self@.cards[i].sequence == pre.cards[i].sequence);
                }
            }
        } else {
            proof {
                assert(self@.cards =~= pre.cards);
                assert(self@ =~= (DuelView { effects: pre.effects.push(stamped), ..pre }));
                assert forall|i: int| 0 <= i < self@.cards.len() implies #[trigger] self@.placed(
                    i,
                ) by {
                    assert(pre.placed(i));
                }
            }
        }
        id
    }

    /// Move a card to a new controller, location and (for zone targets)
    /// slot: the single mutation primitive. The move fails — returning
    /// `false` and changing nothing — when the card id is outside the arena,
    /// the target mask places nowhere, a zone index is out of range, or the
    /// zone slot is already occupied.
    pub fn move_card(
        &mut self,
        card_id: CardId,
        target_player: u8,
        target_loc: Location,
        target_seq: u8,
    ) -> (moved: bool)
        requires
            old(self)@.inv(),
            target_player < 2,
        ensures
            final(self)@.inv(),
            moved == move_allowed(old(self)@, card_id, target_player, target_loc, target_seq),
            !moved ==> final(self)@ == old(self)@,
            moved ==> moved_state(
                old(self)@,
                final(self)@,
                card_id,
                target_player,
                target_loc,
                target_seq,
            ),
    {
        let idx = card_id.as_u32() as usize;
        if idx >= self.cards.len() {
            return false;
        }
        let ok = if target_loc & LOCATION_DECK != 0 {
            true
        } else if target_loc & LOCATION_HAND != 0 {
            true
        } else if target_loc & LOCATION_GRAVE != 0 {
            true
        } else if target_loc & LOCATION_REMOVED != 0 {
            true
        } else if target_loc & LOCATION_EXTRA != 0 {
            true
        } else if target_loc & LOCATION_MZONE != 0 {
            if target_seq < 7 {
                self.field.mzone_at(target_player, target_seq as usize).is_none()
            } else {
                false
            }
        } else if target_loc & LOCATION_SZONE != 0 {
            if target_seq < 8 {
                self.field.szone_at(target_player, target_seq as usize).is_none()
            } else {
                false
            }
        } else {
            false
        };
        if !ok {
            return false;
        }
        let ghost v0 = self@;
        let ghost i = idx as int;
        proof {
            assert(v0.placed(i));
        }
        let cur_player = self.cards[idx].controller;
        let cur_loc = self.cards[idx].location;
        let cur_seq = self.cards[idx].sequence;
        let is_stack_src = cur_loc & LOCATION_DECK != 0 || cur_loc & LOCATION_HAND != 0 || cur_loc
            & LOCATION_GRAVE != 0 || cur_loc & LOCATION_REMOVED != 0 || cur_loc & LOCATION_EXTRA
            != 0;
        if is_stack_src {
            proof {
                let sk = place_of(cur_loc)->Stack_0;
                lemma_count_zero(v0.field.stack(cur_player as int, sk), card_id);
            }
            let _removed = self.field.remove_card_from_stack(cur_player, cur_loc, card_id);
        } else {
            let _removed = self.field.remove_card(cur_player, cur_loc, cur_seq);
        }
        let ghost fmid = self@.field;
        let ghost si: int = if place_of(cur_loc) is Stack {
            choose|sj: int|
                0 <= sj < v0.field.stack(cur_player as int, place_of(cur_loc)->Stack_0).len()
                    && v0.field.stack(cur_player as int, place_of(cur_loc)->Stack_0)[sj]
                    == card_id && fmid == v0.field.set_stack(
                    cur_player as int,
                    place_of(cur_loc)->Stack_0,
                    v0.field.stack(cur_player as int, place_of(cur_loc)->Stack_0).remove(sj),
                )
        } else {
            cur_seq as int
        };
        proof {
            assert(source_index_ok(v0.field, v0.cards[i], card_id, si) && fmid == removed_field(
                v0.field,
                cur_player as int,
                cur_loc,
                cur_seq,
                si,
            )) by {
                if place_of(cur_loc) is Stack {
                    let sk = place_of(cur_loc)->Stack_0;
                    assert(count_of(v0.field.stack(cur_player as int, sk), card_id) == 1);
                    assert(exists|sj: int|
                        0 <= sj < v0.field.stack(cur_player as int, sk).len() && v0.field.stack(
                            cur_player as int,
                            sk,
                        )[sj] == card_id && fmid == v0.field.set_stack(
                            cur_player as int,
                            sk,
                            v0.field.stack(cur_player as int, sk).remove(sj),
                        ));
                }
            }
        }
        self.cards[idx].controller = target_player;
        self.cards[idx].location = target_loc;
        let is_stack_tgt = target_loc & LOCATION_DECK != 0 || target_loc & LOCATION_HAND != 0
            || target_loc & LOCATION_GRAVE != 0 || target_loc & LOCATION_REMOVED != 0
            || target_loc & LOCATION_EXTRA != 0;
        if is_stack_tgt {
            let slen = self.field.stack_len(target_player, target_loc);
            self.field.add_card(target_player, target_loc, card_id, 0);
            self.cards[idx].sequence = #[verifier::truncate] (slen as u8);
        } else {
            self.field.add_card(target_player, target_loc, card_id, target_seq);
            self.cards[idx].sequence = target_seq;
        }
        proof {
            lemma_removed_occ(v0, fmid, card_id, cur_player as int, cur_loc, cur_seq, si);
            assert(self@.cards =~= v0.cards.update(
                i,
                CardView {
                    controller: target_player,
                    location: target_loc,
                    sequence: moved_sequence(fmid, target_player as int, target_loc, target_seq),
                    ..v0.cards[i]
                },
            ));
            lemma_move_card_invariant(
                v0,
                self@,
                fmid,
                card_id,
                cur_player as int,
                cur_loc,
                cur_seq,
                si,
                target_player,
                target_loc,
                target_seq,
            );
        }
        true
    }

    /// Append a fresh card to the arena and place it at the bottom of its
    /// owner's deck; later shuffles permute the whole stack uniformly.
    fn insert_new_card(&mut self, card: Card, owner: u8) -> (r: CardId)
        requires
            old(self)@.inv(),
            owner < 2,
            old(self)@.cards.len() < u32::MAX,
            card@.location == LOCATION_DECK,
            card@.sequence == 0,
            card@.controller == owner,
            card@.effects == Seq::<EffectId>::empty(),
        ensures
            final(self)@.inv(),
            r.0 == old(self)@.cards.len(),
            final(self)@ == (DuelView {
                cards: old(self)@.cards.push(card@),
                field: old(self)@.field.set_stack(
                    owner as int,
                    StackKind::Deck,
                    old(self)@.field.stack(owner as int, StackKind::Deck).insert(0, r),
                ),
                ..old(self)@
            }),
    {
        let ghost v0 = self@;
        let id = CardId::new(self.cards.len() as u32);
        let ghost cv = card@;
        self.cards.push(card);
        self.field.push_deck_front(owner, id);
        proof {
            lemma_location_places();
            let v1 = self@;
            let i = v0.cards.len() as int;
            assert(v1.cards =~= v0.cards.push(cv));
            let deck0 = v0.field.stack(owner as int, StackKind::Deck);
            assert forall|x: CardId|
                field_occ(v1.field, x) == field_occ(v0.field, x) + (if x == id {
                    1int
                } else {
                    0int
                }) by {
                lemma_count_insert_front(deck0, id, x);
                lemma_occ_set_stack(v0.field, owner as int, StackKind::Deck, deck0.insert(0, id), x);
            }
            assert(field_occ(v0.field, id) == 0);
            assert forall|j: int| 0 <= j < v1.cards.len() implies #[trigger] v1.placed(j) by {
                if j < i {
                    assert(v0.placed(j));
                    let cj = v0.cards[j];
                    let idj = CardId(j as u32);
                    assert(idj != id);
                    match place_of(cj.location) {
                        Place::Stack(k) => {
                            assert(count_of(v1.field.stack(cj.controller as int, k), idj)
                                == count_of(v0.field.stack(cj.controller as int, k), idj)) by {
                                if cj.controller as int == owner as int && k == StackKind::Deck {
                                    lemma_count_insert_front(deck0, id, idj);
                                } else {
                                    assert(v1.field.stack(cj.controller as int, k)
                                        == v0.field.stack(cj.controller as int, k));
                                }
                            }
                        },
                        Place::Zone(z) => {
                            assert(v1.field.zone(cj.controller as int, z) == v0.field.zone(
                                cj.controller as int,
                                z,
                            ));
                        },
                        Place::Nowhere => {
                            assert(false);
                        },
                    }
                } else {
                    assert(v1.cards[j] == cv);
                    assert(count_of(v1.field.stack(owner as int, StackKind::Deck), id) == 1) by {
                        lemma_count_insert_front(deck0, id, id);
                        assert(count_of(deck0, id) == 0);
                    }
                }
            }
            assert forall|idu: u32| idu >= v1.cards.len() implies #[trigger] field_occ(
                v1.field,
                CardId(idu),
            ) == 0 by {
                assert(CardId(idu) != id);
                assert(field_occ(v0.field, CardId(idu)) == 0);
            }
            assert(v1.effects_owned()) by {
                assert forall|a: int, b: int|
                    0 <= a < v1.cards.len() && 0 <= b < v1.cards[a].effects.len() implies ((
                #[trigger] v1.cards[a].effects[b]).0 < v1.effects.len()
                    && v1.effects[v1.cards[a].effects[b].0 as int].owner == CardId(a as u32)) by {
                    assert(a < v0.cards.len());
                    assert(v1.cards[a].effects == v0.cards[a].effects);
                }
            }
            assert(v1 =~= (DuelView {
                cards: v0.cards.push(cv),
                field: v0.field.set_stack(
                    owner as int,
                    StackKind::Deck,
                    deck0.insert(0, id),
                ),
                ..v0
            }));
        }
        id
    }

    /// Append a fresh card to the arena and place it at the top (the end) of
    /// its owner's extra deck.
    fn insert_new_card_extra(&mut self, card: Card, owner: u8) -> (r: CardId)
        requires
            old(self)@.inv(),
            owner < 2,
            old(self)@.cards.len() < u32::MAX,
            card@.location == LOCATION_EXTRA,
            card@.sequence as int == old(self)@.field.stack(owner as int, StackKind::Extra).len()
                as u8 as int,
            card@.controller == owner,
            card@.effects == Seq::<EffectId>::empty(),
        ensures
            final(self)@.inv(),
            r.0 == old(self)@.cards.len(),
            final(self)@ == (DuelView {
                cards: old(self)@.cards.push(card@),
                field: old(self)@.field.set_stack(
                    owner as int,
                    StackKind::Extra,
                    old(self)@.field.stack(owner as int, StackKind::Extra).push(r),
                ),
                ..old(self)@
            }),
    {
        let ghost v0 = self@;
        let id = CardId::new(self.cards.len() as u32);
        let ghost cv = card@;
        self.cards.push(card);
        self.field.add_card(owner, LOCATION_EXTRA, id, 0);
        proof {
            lemma_location_places();
            let v1 = self@;
            let i = v0.cards.len() as int;
            assert(v1.cards =~= v0.cards.push(cv));
            let ex0 = v0.field.stack(owner as int, StackKind::Extra);
            assert forall|x: CardId|
                field_occ(v1.field, x) == field_occ(v0.field, x) + (if x == id {
                    1int
                } else {
                    0int
                }) by {
                lemma_count_push(ex0, id, x);
                lemma_occ_set_stack(v0.field, owner as int, StackKind::Extra, ex0.push(id), x);
            }
            assert(field_occ(v0.field, id) == 0);
            assert forall|j: int| 0 <= j < v1.cards.len() implies #[trigger] v1.placed(j) by {
                if j < i {
                    assert(v0.placed(j));
                    let cj = v0.cards[j];
                    let idj = CardId(j as u32);
                    assert(idj != id);
                    match place_of(cj.location) {
                        Place::Stack(k) => {
                            assert(count_of(v1.field.stack(cj.controller as int, k), idj)
                                == count_of(v0.field.stack(cj.controller as int, k), idj)) by {
                                if cj.controller as int == owner as int && k == StackKind::Extra {
                                    lemma_count_push(ex0, id, idj);
                                } else {
                                    assert(v1.field.stack(cj.controller as int, k)
                                        == v0.field.stack(cj.controller as int, k));
                                }
                            }
                        },
                        Place::Zone(z) => {
                            assert(v1.field.zone(cj.controller as int, z) == v0.field.zone(
                                cj.controller as int,
                                z,
                            ));
                        },
                        Place::Nowhere => {
                            assert(false);
                        },
                    }
                } else {
                    assert(v1.cards[j] == cv);
                    assert(count_of(v1.field.stack(owner as int, StackKind::Extra), id) == 1) by {
                        lemma_count_push(ex0, id, id);
                        assert(count_of(ex0, id) == 0);
                    }
                }
            }
            assert forall|idu: u32| idu >= v1.cards.len() implies #[trigger] field_occ(
                v1.field,
                CardId(idu),
            ) == 0 by {
                assert(CardId(idu) != id);
                assert(field_occ(v0.field, CardId(idu)) == 0);
            }
            assert(v1.effects_owned()) by {
                assert forall|a: int, b: int|
                    0 <= a < v1.cards.len() && 0 <= b < v1.cards[a].effects.len() implies ((
                #[trigger] v1.cards[a].effects[b]).0 < v1.effects.len()
                    && v1.effects[v1.cards[a].effects[b].0 as int].owner == CardId(a as u32)) by {
                    assert(a < v0.cards.len());
                    assert(v1.cards[a].effects == v0.cards[a].effects);
                }
            }
            assert(v1 =~= (DuelView {
                cards: v0.cards.push(cv),
                field: v0.field.set_stack(owner as int, StackKind::Extra, ex0.push(id)),
                ..v0
            }));
        }
        id
    }

    /// Create a card with the given code, owned and controlled by `owner`,
    /// with zeroed stats, placed at the bottom of the owner's deck.
    pub fn create_card(&mut self, code: u32, owner: u8) -> (r: CardId)
        requires
            old(self)@.inv(),
            owner < 2,
            old(self)@.cards.len() < u32::MAX,
        ensures
            final(self)@.inv(),
            r.0 == old(self)@.cards.len(),
            final(self)@ == (DuelView {
                cards: old(self)@.cards.push(created_card(code, owner)),
                field: old(self)@.field.set_stack(
                    owner as int,
                    StackKind::Deck,
                    old(self)@.field.stack(owner as int, StackKind::Deck).insert(0, r),
                ),
                ..old(self)@
            }),
    {
        let mut card = Card::new(code);
        card.owner = owner;
        card.controller = owner;
        card.location = LOCATION_DECK;
        proof {
            assert(card@ =~= created_card(code, owner));
        }
        self.insert_new_card(card, owner)
    }

    /// Create a card whose printed stats come from a metadata row, owned and
    /// controlled by `owner`, placed at the bottom of the owner's deck.
    pub fn create_card_with_data(&mut self, code: u32, owner: u8, data: &CardData) -> (r: CardId)
        requires
            old(self)@.inv(),
            owner < 2,
            old(self)@.cards.len() < u32::MAX,
        ensures
            final(self)@.inv(),
            r.0 == old(self)@.cards.len(),
            final(self)@ == (DuelView {
                cards: old(self)@.cards.push(created_card_with(code, owner, *data)),
                field: old(self)@.field.set_stack(
                    owner as int,
                    StackKind::Deck,
                    old(self)@.field.stack(owner as int, StackKind::Deck).insert(0, r),
                ),
                ..old(self)@
            }),
    {
        let mut card = Card::new(code);
        card.owner = owner;
        card.controller = owner;
        card.location = LOCATION_DECK;
        card.original_stats.level = data.level;
        card.original_stats.attack = data.attack;
        card.original_stats.defense = data.defense;
        card.original_stats.base_attack = data.attack;
        card.original_stats.base_defense = data.defense;
        proof {
            assert(card@ =~= created_card_with(code, owner, *data));
        }
        self.insert_new_card(card, owner)
    }

    /// Send a card to the given location of the target player and record
    /// the movement reason on it, as effects do. A failing move — card
    /// outside the arena, or no room at the destination — returns false and
    /// changes nothing, the reason included.
    pub fn send_card_to(
        &mut self,
        card_id: CardId,
        target_player: u8,
        location: Location,
        reason: u32,
    ) -> (moved: bool)
        requires
            old(self)@.inv(),
            target_player < 2,
        ensures
            final(self)@.inv(),
            moved == move_allowed(old(self)@, card_id, target_player, location, 0),
            !moved ==> final(self)@ == old(self)@,
            moved ==> final(self)@.cards[card_id.0 as int].reason == reason,
            moved ==> exists|vm: DuelView|
                #![auto]
                moved_state(old(self)@, vm, card_id, target_player, location, 0) && final(self)@
                    == (DuelView {
                    cards: vm.cards.update(
                        card_id.0 as int,
                        (CardView { reason: reason, ..vm.cards[card_id.0 as int] }),
                    ),
                    ..vm
                }),
    {
        let moved = self.move_card(card_id, target_player, location, 0);
        if moved {
            let ghost vm = self@;
            let idx = card_id.as_u32() as usize;
            self.cards[idx].reason = reason;
            proof {
                let vr = self@;
                assert(vr.cards =~= vm.cards.update(
                    card_id.0 as int,
                    CardView { reason: reason, ..vm.cards[card_id.0 as int] },
                ));
                assert(vr =~= (DuelView {
                    cards: vm.cards.update(
                        card_id.0 as int,
                        (CardView { reason: reason, ..vm.cards[card_id.0 as int] }),
                    ),
                    ..vm
                }));
                assert forall|j: int| 0 <= j < vr.cards.len() implies #[trigger] vr.placed(j) by {
                    assert(vm.placed(j));
                }
                assert(vr.effects_owned()) by {
                    assert forall|a: int, b: int|
                        0 <= a < vr.cards.len() && 0 <= b < vr.cards[a].effects.len() implies ((
                    #[trigger] vr.cards[a].effects[b]).0 < vr.effects.len()
                        && vr.effects[vr.cards[a].effects[b].0 as int].owner == CardId(
                        a as u32,
                    )) by {
                        assert(vr.cards[a].effects == vm.cards[a].effects);
                    }
                }
                assert(moved_state(old(self)@, vm, card_id, target_player, location, 0));
            }
        }
        moved
    }

    /// Draw one card: the top (last) card of the player's deck moves to the
    /// end of their hand. An empty deck draws nothing.
    fn draw_one(&mut self, player: u8)
        requires
            old(self)@.inv(),
            player < 2,
        ensures
            final(self)@.inv(),
            final(self)@ == spec_draw_one(old(self)@, player),
    {
        let ghost v0 = self@;
        let r = self.field.pop_stack(player, LOCATION_DECK);
        match r {
            None => {
                proof {
                    lemma_location_places();
                    assert(self@ =~= spec_draw_one(v0, player));
                }
            },
            Some(id) => {
                let ghost fmid = self@.field;
                let ghost deck0 = v0.field.stack(player as int, StackKind::Deck);
                proof {
                    lemma_location_places();
                    lemma_count_at_least_one(deck0, deck0.len() - 1, id);
                    assert(field_occ(v0.field, id) >= count_of(deck0, id) >= 1) by {
                        if player == 0 {
                        } else {
                        }
                    }
                    assert(id.0 < v0.cards.len()) by {
                        if id.0 >= v0.cards.len() {
                            assert(field_occ(v0.field, CardId(id.0)) == 0);
                        }
                    }
                    let i = id.0 as int;
                    assert(v0.placed(i));
                    let c0 = v0.cards[i];
                    // The drawn card's record must point at this very deck:
                    // its single occurrence is here.
                    assert(c0.controller == player && place_of(c0.location) == Place::Stack(
                        StackKind::Deck,
                    )) by {
                        match place_of(c0.location) {
                            Place::Stack(k) => {
                                if c0.controller != player || k != StackKind::Deck {
                                    assert(count_of(v0.field.stack(c0.controller as int, k), id)
                                        == 1);
                                    assert(field_occ(v0.field, id) >= 2) by {
                                        assert(count_of(deck0, id) >= 1);
                                    }
                                }
                            },
                            Place::Zone(z) => {
                                lemma_count_at_least_one(
                                    v0.field.zone(c0.controller as int, z),
                                    c0.sequence as int,
                                    Some(id),
                                );
                                assert(field_occ(v0.field, id) >= 2) by {
                                    assert(count_of(deck0, id) >= 1);
                                    assert(count_of(
                                        v0.field.zone(c0.controller as int, z),
                                        Some(id),
                                    ) >= 1);
                                }
                            },
                            Place::Nowhere => {},
                        }
                    }
                    // The card sits only at the last deck position.
                    assert(deck0[deck0.len() - 1] == id);
                    assert(fmid == removed_field(v0.field, player as int, c0.location, c0.sequence, deck0.len() - 1)) by {
                        assert(deck0.drop_last() =~= deck0.remove(deck0.len() - 1));
                    }
                }
                let hlen = self.field.stack_len(player, LOCATION_HAND);
                self.field.add_card(player, LOCATION_HAND, id, 0);
                let idx = id.as_u32() as usize;
                self.cards[idx].location = LOCATION_HAND;
                self.cards[idx].sequence = #[verifier::truncate] (hlen as u8);
                proof {
                    let i = id.0 as int;
                    let c0 = v0.cards[i];
                    assert(self@.cards =~= v0.cards.update(
                        i,
                        CardView {
                            controller: player,
                            location: LOCATION_HAND,
                            sequence: moved_sequence(fmid, player as int, LOCATION_HAND, 0),
                            ..c0
                        },
                    ));
                    lemma_move_card_invariant(
                        v0,
                        self@,
                        fmid,
                        id,
                        player as int,
                        c0.location,
                        c0.sequence,
                        deck0.len() - 1,
                        player,
                        LOCATION_HAND,
                        0,
                    );
                    assert(self@ =~= spec_draw_one(v0, player));
                }
            },
        }
    }

    /// Draw up to `count` cards from the player's deck to their hand; the
    /// draw stops silently when the deck runs out.
    pub fn draw(&mut self, player: u8, count: u32)
        requires
            old(self)@.inv(),
            player < 2,
        ensures
            final(self)@.inv(),
            final(self)@ == spec_draw(old(self)@, player, count as int),
    {
        let ghost v0 = self@;
        let mut n: u32 = 0;
        while n < count
            invariant
                self@.inv(),
                player < 2,
                n <= count,
                self@ == spec_draw(v0, player, n as int),
            decreases count - n,
        {
            self.draw_one(player);
            n = n + 1;
        }
    }

    /// Shuffle the given player's deck in place with the generator's ranged
    /// draws; the deck keeps exactly its cards, only their order changes.
    pub fn shuffle_deck(&mut self, player: u8)
        requires
            old(self)@.inv(),
            player < 2,
            old(self)@.field.stack(player as int, StackKind::Deck).len() <= u32::MAX,
        ensures
            final(self)@.inv(),
            forall|x: CardId|
                count_of(
                    final(self)@.field.stack(player as int, StackKind::Deck),
                    x,
                ) == count_of(old(self)@.field.stack(player as int, StackKind::Deck), x),
            (
                final(self)@.field.stack(player as int, StackKind::Deck),
                final(self)@.random,
            ) == crate::mtrandom::spec_shuffle(
                old(self)@.random,
                old(self)@.field.stack(player as int, StackKind::Deck),
                0,
                old(self)@.field.stack(player as int, StackKind::Deck).len() as int,
            ),

            final(self)@ == (DuelView {
                field: old(self)@.field.set_stack(
                    player as int,
                    StackKind::Deck,
                    final(self)@.field.stack(player as int, StackKind::Deck),
                ),
                random: final(self)@.random,
                ..old(self)@
            }),
    {
        let ghost v0 = self@;
        if player == 0 {
            let n = self.field.p0.deck.len();
            self.random.shuffle_vector(&mut self.field.p0.deck, 0, n);
        } else {
            let n = self.field.p1.deck.len();
            self.random.shuffle_vector(&mut self.field.p1.deck, 0, n);
        }
        proof {
            let v1 = self@;
            assert(v1.field =~= v0.field.set_stack(
                player as int,
                StackKind::Deck,
                v1.field.stack(player as int, StackKind::Deck),
            ));
            assert(v1.cards =~= v0.cards);
            assert(v1 =~= (DuelView {
                field: v0.field.set_stack(
                    player as int,
                    StackKind::Deck,
                    v1.field.stack(player as int, StackKind::Deck),
                ),
                random: v1.random,
                ..v0
            }));
            let deck1 = v1.field.stack(player as int, StackKind::Deck);
            let deck0 = v0.field.stack(player as int, StackKind::Deck);
            assert forall|x: CardId| field_occ(v1.field, x) == field_occ(v0.field, x) by {
                lemma_occ_set_stack(v0.field, player as int, StackKind::Deck, deck1, x);
            }
            assert forall|j: int| 0 <= j < v1.cards.len() implies #[trigger] v1.placed(j) by {
                assert(v0.placed(j));
                let cj = v0.cards[j];
                let idj = CardId(j as u32);
                match place_of(cj.location) {
                    Place::Stack(k) => {
                        if cj.controller as int == player as int && k == StackKind::Deck {
                            assert(count_of(deck1, idj) == count_of(deck0, idj));
                        } else {
                            assert(v1.field.stack(cj.controller as int, k) == v0.field.stack(
                                cj.controller as int,
                                k,
                            ));
                        }
                    },
                    Place::Zone(z) => {
                        assert(v1.field.zone(cj.controller as int, z) == v0.field.zone(
                            cj.controller as int,
                            z,
                        ));
                    },
                    Place::Nowhere => {
                        assert(false);
                    },
                }
            }
            assert forall|idu: u32| idu >= v1.cards.len() implies #[trigger] field_occ(
                v1.field,
                CardId(idu),
            ) == 0 by {
                assert(field_occ(v0.field, CardId(idu)) == 0);
            }
        }
    }

    /// The candidate effect ids whose code equals the raised event code, in
    /// arena order.
    pub fn get_matching_effects(&self, code: u32) -> (r: Vec<EffectId>)
        requires
            self@.effects.len() <= u32::MAX,
        ensures
            r@ == spec_matching(self@.effects, code),
    {
        let n = self.effects.len();
        let mut out: Vec<EffectId> = Vec::new();
        let mut i: usize = 0;
        proof {
            assert(out@ =~= matching_upto(self@.effects, code, 0));
        }
        while i < n
            invariant
                n == self@.effects.len(),
                i <= n,
                n <= u32::MAX,
                out@ == matching_upto(self@.effects, code, i as int),
            decreases n - i,
        {
            if self.effects[i].code == code {
                out.push(EffectId::new(i as u32));
            }
            i = i + 1;
        }
        out
    }

    /// Raise an event: scan the arena for effects whose code matches, decide
    /// for each whether it triggers — an effect with no condition callback
    /// always does, one with a condition triggers when its entry of
    /// `cond_results` (the callback outcomes, one per candidate in arena
    /// order) is true — and record each triggered effect in the trigger
    /// buffer together with a chain link that freezes the event context.
    pub fn raise_event(
        &mut self,
        code: u32,
        event_cards: Option<Group>,
        reason_player: u8,
        reason_effect: Option<EffectId>,
        cond_results: &Vec<bool>,
    )
        requires
            old(self)@.inv(),
            cond_results@.len() == spec_matching(old(self)@.effects, code).len(),
        ensures
            final(self)@.inv(),
            final(self)@ == spec_raise(
                old(self)@,
                code,
                group_opt_view(event_cards),
                reason_player,
                reason_effect,
                cond_results@,
            ),
    {
        let ghost v0 = self@;
        let ghost gv = group_opt_view(event_cards);
        let ghost linker = |e: EffectId| link_of(e, gv, reason_player, reason_effect);
        let cands = self.get_matching_effects(code);
        proof {
            lemma_matching_props(v0.effects, code, v0.effects.len() as int);
        }
        let n = cands.len();
        let mut i: usize = 0;
        proof {
            assert(self@.triggered =~= v0.triggered + triggered_upto(
                v0.effects,
                cands@,
                cond_results@,
                0,
            ));
            assert(self@.chain =~= v0.chain + triggered_upto(
                v0.effects,
                cands@,
                cond_results@,
                0,
            ).map_values(linker));
        }
        while i < n
            invariant
                self@.inv(),
                n == cands@.len(),
                cands@ == spec_matching(v0.effects, code),
                cond_results@.len() == n,
                i <= n,
                self@.effects == v0.effects,
                self@.cards == v0.cards,
                self@.field == v0.field,
                self@.random == v0.random,
                self@.units == v0.units,
                self@.phase == v0.phase,
                self@.turn == v0.turn,
                self@.turn_player == v0.turn_player,
                self@.lp == v0.lp,
                self@.response == v0.response,
                self@.cond_responses == v0.cond_responses,
                self@.outbox == v0.outbox,
                forall|j: int|
                    0 <= j < n ==> (#[trigger] cands@[j]).0 < v0.effects.len(),
                self@.triggered == v0.triggered + triggered_upto(
                    v0.effects,
                    cands@,
                    cond_results@,
                    i as int,
                ),
                self@.chain == v0.chain + triggered_upto(
                    v0.effects,
                    cands@,
                    cond_results@,
                    i as int,
                ).map_values(linker),
                gv == group_opt_view(event_cards),
                linker == (|e: EffectId| link_of(e, gv, reason_player, reason_effect)),
            decreases n - i,
        {
            let ghost vpre = self@;
            let eid = cands[i];
            let has_condition = self.effects[eid.0 as usize].condition.is_some();
            let fired = !has_condition || cond_results[i];
            proof {
                assert(fired == trigger_fires(v0.effects, cands@[i as int], cond_results@[i as int]));
            }
            if fired {
                let ghost told = self@.triggered;
                let ghost cold = self@.chain;
                self.triggered_effects.push(eid);
                let target_cards = match event_cards {
                    Some(ref g) => Some(g.clone()),
                    None => None,
                };
                let evt_group = match event_cards {
                    Some(ref g) => Some(g.clone()),
                    None => None,
                };
                let link = ChainLink {
                    effect_id: eid,
                    trigger_player: reason_player,
                    check_player: 0,
                    target_cards,
                    reason_effect,
                    reason_player,
                    evt_group,
                    evt_player: reason_player,
                    evt_value: 0,
                    evt_effect: reason_effect,
                    evt_reason: 0,
                    evt_r_player: reason_player,
                };
                proof {
                    assert(link@ =~~= link_of(eid, gv, reason_player, reason_effect));
                }
                self.chain.add(link);
                proof {
                    let t1 = triggered_upto(v0.effects, cands@, cond_results@, i as int);
                    let t2 = triggered_upto(v0.effects, cands@, cond_results@, i + 1);
                    assert(t2 == t1.push(eid));
                    assert(self@.triggered =~= v0.triggered + t2);
                    assert(t2.map_values(linker) =~= t1.map_values(linker).push(linker(eid)));
                    assert(self@.chain =~= v0.chain + t2.map_values(linker));
                    assert forall|j: int| 0 <= j < self@.cards.len() implies #[trigger] self@.placed(
                        j,
                    ) by {
                        assert(vpre.placed(j));
                    }
                    assert(self@.effects_owned()) by {
                        assert(vpre.effects_owned());
                        assert(self@.cards == vpre.cards && self@.effects == vpre.effects);
                    }
                }
            } else {
                proof {
                    assert(triggered_upto(v0.effects, cands@, cond_results@, i + 1)
                        == triggered_upto(v0.effects, cands@, cond_results@, i as int));
                }
            }
            i = i + 1;
        }
        proof {
            assert(self@ =~= spec_raise(v0, code, gv, reason_player, reason_effect, cond_results@));
        }
    }
}

/// Whether an effect id is in the buffer of triggered effects.
fn contains_effect(v: &Vec<EffectId>, x: EffectId) -> (r: bool)
    ensures
        r == v@.contains(x),
{
    let n = v.len();
    let mut i: usize = 0;
    while i < n
        invariant
            n == v@.len(),
            i <= n,
            forall|j: int| 0 <= j < i ==> v@[j] != x,
        decreases n - i,
    {
        if v[i] == x {
            return true;
        }
        i = i + 1;
    }
    false
}

/// The state transition of the turn unit: the turn counter advances; on the
/// first turn the starting player is chosen with a single ranged word
/// (`next_u32 mod 2`), afterwards the turn player flips; the unit is
/// replaced by a draw-phase event.
pub open spec fn spec_turn_step(v: DuelView) -> DuelView {
    let drawunit = ProcessorUnit::spec_new(ProcessorType::PhaseEvent, 0, PHASE_DRAW, 0);
    if v.turn == 0 {
        DuelView {
            turn: vstd::wrapping::u32_specs::wrapping_add(v.turn, 1),
            turn_player: (next_output(v.random) % 2) as u8,
            random: next_state(v.random),
            units: v.units.update(0, drawunit),
            ..v
        }
    } else {
        DuelView {
            turn: vstd::wrapping::u32_specs::wrapping_add(v.turn, 1),
            turn_player: (1 - v.turn_player) as u8,
            units: v.units.update(0, drawunit),
            ..v
        }
    }
}

/// Whether any candidate of the event code carries a condition callback —
/// an outcome only the embedding host can supply.
pub open spec fn has_condition_candidate(effects: Seq<Effect>, code: u32) -> bool {
    exists|j: int|
        0 <= j < spec_matching(effects, code).len() && effects[(#[trigger] spec_matching(
            effects,
            code,
        )[j]).0 as int].condition is Some
}

/// One host-supplied condition outcome per candidate, in candidate order;
/// entries past the end of what the host gave count as false.
pub open spec fn adjusted_conds(given: Seq<bool>, n: int) -> Seq<bool> {
    Seq::new(n as nat, |i: int| i < given.len() && given[i])
}

/// The completion of the draw phase: the draw event is raised for the turn
/// player with the given condition outcomes, the outcome buffer is cleared,
/// and the front unit becomes a point event.
pub open spec fn spec_draw_phase_raise(v: DuelView, conds: Seq<bool>) -> DuelView {
    let vr = spec_raise(v, EVENT_DRAW, None, v.turn_player, None, conds);
    DuelView {
        units: vr.units.update(0, ProcessorUnit::spec_new(ProcessorType::PointEvent, 0, 0, 0)),
        cond_responses: Seq::empty(),
        ..vr
    }
}

/// The first step of the draw phase: the turn player draws one card. When a
/// candidate of the draw event carries a condition callback, the unit moves
/// to its second step and waits for the host to evaluate the conditions
/// against the post-draw state; otherwise the event is raised at once and
/// exactly the condition-less candidates trigger.
pub open spec fn spec_draw_phase(v: DuelView) -> (DuelView, ProcessResult) {
    let u = v.units[0];
    let vd = spec_draw(v, v.turn_player, 1);
    if has_condition_candidate(vd.effects, EVENT_DRAW) {
        (
            DuelView {
                units: vd.units.update(0, ProcessorUnit::spec_new(u.type_, 1, u.arg1, u.arg2)),
                ..vd
            },
            ProcessResult::Waiting,
        )
    } else {
        (
            spec_draw_phase_raise(
                vd,
                adjusted_conds(
                    Seq::empty(),
                    spec_matching(vd.effects, EVENT_DRAW).len() as int,
                ),
            ),
            ProcessResult::Continue,
        )
    }
}

/// The state transition of the second step of chain selection: a non-zero
/// response naming a triggered effect selects it (the chain then resolves),
/// anything else passes; either way the trigger buffer and the response are
/// cleared and the front unit is replaced.
pub open spec fn spec_select_chain_choice(v: DuelView) -> DuelView {
    let found = v.response != 0 && v.triggered.contains(EffectId(v.response as u32));
    let nextu = if found {
        ProcessorUnit::spec_new(ProcessorType::SolveChain, 0, 0, 0)
    } else {
        ProcessorUnit::spec_new(ProcessorType::PhaseEvent, 0, PHASE_MAIN1, 0)
    };
    DuelView {
        triggered: Seq::empty(),
        response: 0,
        units: v.units.update(0, nextu),
        ..v
    }
}

/// One processor cycle as a function of the previous state: the state it
/// leaves behind and the result it reports. Chain resolution has priority
/// over unit processing; pending operations of resolved links are the
/// embedding host's to run. Two units wait on the host: the draw phase when
/// a draw-event candidate carries a condition (the host answers through the
/// condition-outcome buffer), and chain selection, which posts its prompt
/// packet to the outbox and reads the response.
pub open spec fn spec_process(v: DuelView) -> (DuelView, ProcessResult) {
    if v.chain.len() > 0 {
        (DuelView { chain: Seq::empty(), ..v }, ProcessResult::Continue)
    } else if v.units.len() == 0 {
        (v, ProcessResult::End)
    } else {
        let u = v.units[0];
        let popped = DuelView { units: v.units.drop_first(), ..v };
        match u.type_ {
            ProcessorType::Turn => (spec_turn_step(v), ProcessResult::Continue),
            ProcessorType::PhaseEvent => if u.arg1 == PHASE_DRAW {
                if u.step == 0 {
                    spec_draw_phase(v)
                } else if u.step == 1 {
                    (
                        spec_draw_phase_raise(
                            v,
                            adjusted_conds(
                                v.cond_responses,
                                spec_matching(v.effects, EVENT_DRAW).len() as int,
                            ),
                        ),
                        ProcessResult::Continue,
                    )
                } else {
                    (popped, ProcessResult::Continue)
                }
            } else if u.arg1 == PHASE_MAIN1 || u.arg1 == PHASE_MAIN2 {
                (v, ProcessResult::Waiting)
            } else {
                (popped, ProcessResult::Continue)
            },
            ProcessorType::PointEvent => if v.triggered.len() == 0 {
                (popped, ProcessResult::Continue)
            } else {
                (
                    DuelView {
                        units: v.units.update(
                            0,
                            ProcessorUnit::spec_new(ProcessorType::SelectChain, 0, 0, 0),
                        ),
                        ..v
                    },
                    ProcessResult::Continue,
                )
            },
            ProcessorType::SelectChain => if u.step == 0 {
                (
                    DuelView {
                        units: v.units.update(0, ProcessorUnit::spec_new(u.type_, 1, u.arg1, u.arg2)),
                        outbox: v.outbox.push(
                            crate::messages::spec_select_chain_msg(v.turn_player, v.triggered),
                        ),
                        ..v
                    },
                    ProcessResult::Waiting,
                )
            } else if u.step == 1 {
                (spec_select_chain_choice(v), ProcessResult::Continue)
            } else {
                (popped, ProcessResult::Continue)
            },
            ProcessorType::SolveChain => if u.step == 0 {
                (
                    DuelView {
                        units: v.units.update(
                            0,
                            ProcessorUnit::spec_new(ProcessorType::PhaseEvent, 0, PHASE_MAIN1, 0),
                        ),
                        ..v
                    },
                    ProcessResult::Continue,
                )
            } else {
                (popped, ProcessResult::Continue)
            },
            _ => (popped, ProcessResult::Continue),
        }
    }
}


/// The state after a deck load: one fresh card per main code stacked at the
/// bottom of the player's deck (reverse creation order) and one per extra
/// code on top of the player's extra stack.
pub open spec fn spec_load_deck(v: DuelView, player: u8, main: Seq<u32>, extra: Seq<u32>)
    -> DuelView {
    let base = v.cards.len() as int;
    let exbase = v.field.stack(player as int, StackKind::Extra).len() as int;
    let mainids = Seq::new(main.len(), |j: int| CardId((base + main.len() - 1 - j) as u32));
    let exids = Seq::new(extra.len(), |j: int| CardId((base + main.len() + j) as u32));
    DuelView {
        cards: v.cards + Seq::new(main.len(), |j: int| created_card(main[j], player)) + Seq::new(
            extra.len(),
            |j: int|
                CardView {
                    location: LOCATION_EXTRA,
                    sequence: (exbase + j) as u8,
                    ..created_card(extra[j], player)
                },
        ),
        field: v.field.set_stack(
            player as int,
            StackKind::Deck,
            mainids + v.field.stack(player as int, StackKind::Deck),
        ).set_stack(
            player as int,
            StackKind::Extra,
            v.field.stack(player as int, StackKind::Extra) + exids,
        ),
        ..v
    }
}

/// The reset a replay load performs before the decks are loaded: generator
/// reseeded, queue back to one turn unit, phase and turn cleared, life
/// points from the recorded parameters (8000 when not positive).
pub open spec fn spec_replay_reset(v: DuelView, r: crate::replay::ReplayView) -> DuelView {
    let lp: u32 = if r.params.start_lp > 0 {
        r.params.start_lp as u32
    } else {
        8000
    };
    DuelView {
        random: seeded(r.header.seed),
        units: seq![ProcessorUnit::spec_new(ProcessorType::Turn, 0, 0, 0)],
        phase: 0,
        turn: 0,
        lp: seq![lp, lp],
        ..v
    }
}

/// The state after a replay load: the reset, then the first two recorded
/// decks loaded in player order.
pub open spec fn spec_load_replay(v: DuelView, r: crate::replay::ReplayView) -> DuelView {
    let base = spec_replay_reset(v, r);
    if r.decks.len() == 0 {
        base
    } else if r.decks.len() == 1 {
        spec_load_deck(base, 0, r.decks[0].0, r.decks[0].1)
    } else {
        spec_load_deck(
            spec_load_deck(base, 0, r.decks[0].0, r.decks[0].1),
            1,
            r.decks[1].0,
            r.decks[1].1,
        )
    }
}

/// High-level steps of the duel processor loop, as observed by a client.
#[derive(Debug, Clone, Copy, PartialEq, Eq, Structural)]
pub enum ProcessorState {
    Start,
    TurnChange,
    Draw,
    Standby,
    Main1,
    BattleStart,
    BattleStep,
    Damage,
    DamageCal,
    Battle,
    Main2,
    End,
    GameOver,
}

/// The duel orchestrator: owns the state and drives one processor cycle per
/// `process` call. Script execution is the embedding host's: the engine
/// hands out candidate lists, frozen chain links and callback argument
/// tuples, and takes condition results and responses back as plain values.
#[derive(Debug)]
pub struct Duel {
    pub data: DuelData,
}

impl View for Duel {
    type V = DuelView;

    open spec fn view(&self) -> DuelView {
        self.data@
    }
}

impl Duel {
    /// A fresh duel: empty arenas and field, the generator seeded, one turn
    /// unit queued, 8000 life points each.
    pub fn new(seed: u32) -> (r: Self)
        ensures
            r@.inv(),
            r@.cards == Seq::<CardView>::empty(),
            r@.effects == Seq::<Effect>::empty(),
            r@.random == seeded(seed),
            r@.chain == Seq::<ChainLinkView>::empty(),
            r@.units == seq![ProcessorUnit::spec_new(ProcessorType::Turn, 0, 0, 0)],
            r@.phase == 0,
            r@.turn == 0,
            r@.turn_player == 0,
            r@.lp == seq![8000u32, 8000u32],
            r@.triggered == Seq::<EffectId>::empty(),
            r@.response == 0,
            r@.cond_responses == Seq::<bool>::empty(),
            r@.outbox == Seq::<Seq<u8>>::empty(),
            forall|p: int, k: StackKind| 0 <= p < 2 ==> (#[trigger] r@.field.stack(p, k)).len()
                == 0,
            forall|p: int, i: int| 0 <= p < 2 && 0 <= i < 7 ==> r@.field.side(p).mzone[i] is None,
            forall|p: int, i: int| 0 <= p < 2 && 0 <= i < 8 ==> r@.field.side(p).szone[i] is None,
    {
        let mut units: VecDeque<ProcessorUnit> = VecDeque::new();
        units.push_back(ProcessorUnit::turn(0));
        let data = DuelData {
            cards: Vec::new(),
            field: Field::new(),
            random: Mt19937::new(seed),
            chain: Chain::new(),
            processor_units: units,
            phase: 0,
            turn: 0,
            turn_player: 0,
            lp: [8000, 8000],
            effects: Vec::new(),
            triggered_effects: Vec::new(),
            response: 0,
            cond_responses: Vec::new(),
            outbox: Vec::new(),
        };
        let r = Duel { data };
        proof {
            assert(r@.cards =~= Seq::<CardView>::empty());
            assert(r@.units =~= seq![ProcessorUnit::spec_new(ProcessorType::Turn, 0, 0, 0)]);
            assert(r@.lp =~= seq![8000u32, 8000u32]);
            assert(r@.outbox =~= Seq::<Seq<u8>>::empty());
            assert forall|idu: u32| true implies #[trigger] field_occ(r@.field, CardId(idu))
                == 0 by {
                assert(r@.field.stack(0, StackKind::Deck) == r@.field.p0.deck);
                assert(r@.field.stack(0, StackKind::Hand) == r@.field.p0.hand);
                assert(r@.field.stack(0, StackKind::Grave) == r@.field.p0.grave);
                assert(r@.field.stack(0, StackKind::Removed) == r@.field.p0.remove);
                assert(r@.field.stack(0, StackKind::Extra) == r@.field.p0.extra);
                assert(r@.field.stack(1, StackKind::Deck) == r@.field.p1.deck);
                assert(r@.field.stack(1, StackKind::Hand) == r@.field.p1.hand);
                assert(r@.field.stack(1, StackKind::Grave) == r@.field.p1.grave);
                assert(r@.field.stack(1, StackKind::Removed) == r@.field.p1.remove);
                assert(r@.field.stack(1, StackKind::Extra) == r@.field.p1.extra);
                assert forall|m: int|
                    0 <= m < r@.field.p0.mzone.len() implies r@.field.p0.mzone[m] != Some(
                    CardId(idu),
                ) by {
                    assert(r@.field.side(0).mzone[m] is None);
                }
                assert forall|m: int|
                    0 <= m < r@.field.p0.szone.len() implies r@.field.p0.szone[m] != Some(
                    CardId(idu),
                ) by {
                    assert(r@.field.side(0).szone[m] is None);
                }
                assert forall|m: int|
                    0 <= m < r@.field.p1.mzone.len() implies r@.field.p1.mzone[m] != Some(
                    CardId(idu),
                ) by {
                    assert(r@.field.side(1).mzone[m] is None);
                }
                assert forall|m: int|
                    0 <= m < r@.field.p1.szone.len() implies r@.field.p1.szone[m] != Some(
                    CardId(idu),
                ) by {
                    assert(r@.field.side(1).szone[m] is None);
                }
                lemma_count_zero(r@.field.p0.mzone, Some(CardId(idu)));
                lemma_count_zero(r@.field.p0.szone, Some(CardId(idu)));
                lemma_count_zero(r@.field.p1.mzone, Some(CardId(idu)));
                lemma_count_zero(r@.field.p1.szone, Some(CardId(idu)));
            }
        }
        r
    }

    /// Create a card with zeroed stats in the arena; it lands at the bottom
    /// of the owner's deck.
    pub fn create_card(&mut self, code: u32, owner: u8) -> (r: CardId)
        requires
            old(self)@.inv(),
            owner < 2,
            old(self)@.cards.len() < u32::MAX,
        ensures
            final(self)@.inv(),
            r.0 == old(self)@.cards.len(),
            final(self)@ == (DuelView {
                cards: old(self)@.cards.push(created_card(code, owner)),
                field: old(self)@.field.set_stack(
                    owner as int,
                    StackKind::Deck,
                    old(self)@.field.stack(owner as int, StackKind::Deck).insert(0, r),
                ),
                ..old(self)@
            }),
    {
        self.data.create_card(code, owner)
    }

    /// Create a card whose printed stats come from a metadata row; it lands
    /// at the bottom of the owner's deck.
    pub fn create_card_with_data(&mut self, code: u32, owner: u8, data: &CardData) -> (r: CardId)
        requires
            old(self)@.inv(),
            owner < 2,
            old(self)@.cards.len() < u32::MAX,
        ensures
            final(self)@.inv(),
            r.0 == old(self)@.cards.len(),
            final(self)@ == (DuelView {
                cards: old(self)@.cards.push(created_card_with(code, owner, *data)),
                field: old(self)@.field.set_stack(
                    owner as int,
                    StackKind::Deck,
                    old(self)@.field.stack(owner as int, StackKind::Deck).insert(0, r),
                ),
                ..old(self)@
            }),
    {
        self.data.create_card_with_data(code, owner, data)
    }

    /// Move a card to a new controller, location and (for zones) slot; see
    /// [`DuelData::move_card`].
    pub fn move_card(
        &mut self,
        card_id: CardId,
        target_player: u8,
        target_loc: Location,
        target_seq: u8,
    ) -> (moved: bool)
        requires
            old(self)@.inv(),
            target_player < 2,
        ensures
            final(self)@.inv(),
            moved == move_allowed(old(self)@, card_id, target_player, target_loc, target_seq),
            !moved ==> final(self)@ == old(self)@,
            moved ==> moved_state(
                old(self)@,
                final(self)@,
                card_id,
                target_player,
                target_loc,
                target_seq,
            ),
    {
        self.data.move_card(card_id, target_player, target_loc, target_seq)
    }

    /// Shuffle the given player's deck in place; see
    /// [`DuelData::shuffle_deck`].
    pub fn shuffle_deck(&mut self, player: u8)
        requires
            old(self)@.inv(),
            player < 2,
            old(self)@.field.stack(player as int, StackKind::Deck).len() <= u32::MAX,
        ensures
            final(self)@.inv(),
            forall|x: CardId|
                count_of(final(self)@.field.stack(player as int, StackKind::Deck), x) == count_of(
                    old(self)@.field.stack(player as int, StackKind::Deck),
                    x,
                ),
            (
                final(self)@.field.stack(player as int, StackKind::Deck),
                final(self)@.random,
            ) == crate::mtrandom::spec_shuffle(
                old(self)@.random,
                old(self)@.field.stack(player as int, StackKind::Deck),
                0,
                old(self)@.field.stack(player as int, StackKind::Deck).len() as int,
            ),

            final(self)@ == (DuelView {
                field: old(self)@.field.set_stack(
                    player as int,
                    StackKind::Deck,
                    final(self)@.field.stack(player as int, StackKind::Deck),
                ),
                random: final(self)@.random,
                ..old(self)@
            }),
    {
        self.data.shuffle_deck(player)
    }

    /// Draw up to `count` cards for the player; see [`DuelData::draw`].
    pub fn draw(&mut self, player: u8, count: u32)
        requires
            old(self)@.inv(),
            player < 2,
        ensures
            final(self)@.inv(),
            final(self)@ == spec_draw(old(self)@, player, count as int),
    {
        self.data.draw(player, count)
    }

    /// Draw a value uniformly from `[min, max]` with the given generator.
    pub fn get_next_integer(rng: &mut Mt19937, min: u32, max: u32) -> (r: u32)
        requires
            old(rng).wf(),
            min <= max,
            max - min < u32::MAX,
        ensures
            final(rng).wf(),
            min <= r <= max,
            exists|k: int|
                1 <= k <= crate::mtrandom::REDRAW_LIMIT && #[trigger] crate::mtrandom::ranged_result(
                    old(rng)@,
                    min,
                    max,
                    k,
                    r,
                ) && final(rng)@ == crate::mtrandom::state_after(old(rng)@, k),
    {
        rng.get_next_integer(min, max)
    }

    /// Store the next interactive answer for the processor to consume.
    pub fn set_responsei(&mut self, resp: i32)
        ensures
            final(self)@ == (DuelView { response: resp, ..old(self)@ }),
            old(self)@.inv() ==> final(self)@.inv(),
    {
        self.data.response = resp;
        proof {
            assert(final(self)@ =~= (DuelView { response: resp, ..old(self)@ }));
            if old(self)@.inv() {
                assert forall|j: int| 0 <= j < self@.cards.len() implies #[trigger] self@.placed(
                    j,
                ) by {
                    assert(old(self)@.placed(j));
                }
            }
        }
    }

    /// Hand the engine the condition outcomes for the event it is waiting
    /// on, one per candidate in candidate order; the next processor step
    /// consumes them, counting missing entries as false.
    pub fn set_condition_responses(&mut self, conds: Vec<bool>)
        ensures
            final(self)@ == (DuelView { cond_responses: conds@, ..old(self)@ }),
            old(self)@.inv() ==> final(self)@.inv(),
    {
        self.data.cond_responses = conds;
        proof {
            assert(final(self)@ =~= (DuelView { cond_responses: conds@, ..old(self)@ }));
            if old(self)@.inv() {
                lemma_inv_transfer(old(self)@, self@);
            }
        }
    }

    /// Register an effect in the arena; see [`DuelData::register_effect`].
    pub fn register_effect(&mut self, effect: Effect, owner_card: Option<CardId>) -> (r: EffectId)
        requires
            old(self)@.inv(),
            old(self)@.effects.len() < u32::MAX,
        ensures
            final(self)@.inv(),
            r.0 == old(self)@.effects.len(),
            final(self)@ == match owner_card {
                Some(cid) => if cid.0 < old(self)@.cards.len() {
                    DuelView {
                        effects: old(self)@.effects.push((Effect { owner: cid, ..effect })),
                        cards: old(self)@.cards.update(
                            cid.0 as int,
                            (CardView {
                                effects: old(self)@.cards[cid.0 as int].effects.push(r),
                                ..old(self)@.cards[cid.0 as int]
                            }),
                        ),
                        ..old(self)@
                    }
                } else {
                    DuelView { effects: old(self)@.effects.push(effect), ..old(self)@ }
                },
                None => DuelView { effects: old(self)@.effects.push(effect), ..old(self)@ },
            },
    {
        self.data.register_effect(effect, owner_card)
    }

    /// Raise an event; see [`DuelData::raise_event`].
    pub fn raise_event(
        &mut self,
        code: u32,
        event_cards: Option<Group>,
        reason_player: u8,
        reason_effect: Option<EffectId>,
        cond_results: &Vec<bool>,
    )
        requires
            old(self)@.inv(),
            cond_results@.len() == spec_matching(old(self)@.effects, code).len(),
        ensures
            final(self)@.inv(),
            final(self)@ == spec_raise(
                old(self)@,
                code,
                group_opt_view(event_cards),
                reason_player,
                reason_effect,
                cond_results@,
            ),
    {
        self.data.raise_event(code, event_cards, reason_player, reason_effect, cond_results)
    }

    /// Pop every chain link, last in first out, and hand them back in
    /// resolution order; the embedding host runs each link's operation with
    /// arguments rebuilt from the frozen context (see
    /// [`spec_link_args`]). The chain is empty afterwards.
    pub fn resolve_chain(&mut self) -> (links: Vec<ChainLink>)
        requires
            old(self)@.inv(),
        ensures
            final(self)@.inv(),
            final(self)@ == (DuelView { chain: Seq::empty(), ..old(self)@ }),
            links@.len() == old(self)@.chain.len(),
            forall|i: int|
                0 <= i < links@.len() ==> (#[trigger] links@[i])@ == old(self)@.chain[old(
                    self,
                )@.chain.len() - 1 - i],
    {
        let ghost v0 = self@;
        let mut links: Vec<ChainLink> = Vec::new();
        loop
            invariant
                self@.inv(),
                self@.chain.len() + links@.len() == v0.chain.len(),
                self@.chain == v0.chain.take(v0.chain.len() - links@.len()),
                forall|i: int|
                    0 <= i < links@.len() ==> (#[trigger] links@[i])@ == v0.chain[v0.chain.len() - 1
                        - i],
                self@.cards == v0.cards,
                self@.field == v0.field,
                self@.random == v0.random,
                self@.units == v0.units,
                self@.phase == v0.phase,
                self@.turn == v0.turn,
                self@.turn_player == v0.turn_player,
                self@.lp == v0.lp,
                self@.effects == v0.effects,
                self@.triggered == v0.triggered,
                self@.response == v0.response,
                self@.cond_responses == v0.cond_responses,
                self@.outbox == v0.outbox,
            ensures
                self@.chain.len() == 0,
            decreases self@.chain.len(),
        {
            let ghost vpre = self@;
            let next = self.data.chain.pop();
            match next {
                Some(link) => {
                    proof {
                        assert(vpre.chain.take(vpre.chain.len() - 1) =~= vpre.chain.drop_last());
                        assert forall|j: int| 0 <= j < self@.cards.len() implies #[trigger] self@.placed(j) by {
                            assert(vpre.placed(j));
                        }
                    }
                    links.push(link);
                },
                None => {
                    break;
                },
            }
        }
        proof {
            assert(self@ =~= (DuelView { chain: Seq::empty(), ..v0 }));
        }
        links
    }

    /// Load a deck: each main code becomes a new card at the bottom of the
    /// player's deck (so the deck ends up holding the main codes in reverse
    /// creation order), and each extra code a new card on top of the
    /// player's extra stack.
    pub fn load_deck(&mut self, player: u8, main: &[u32], extra: &[u32])
        requires
            old(self)@.inv(),
            player < 2,
            old(self)@.cards.len() + main@.len() + extra@.len() < u32::MAX,
        ensures
            final(self)@.inv(),
            final(self)@.cards.len() == old(self)@.cards.len() + main@.len() + extra@.len(),
            forall|j: int|
                0 <= j < main@.len() ==> final(self)@.cards[old(self)@.cards.len() + j]
                    == created_card(#[trigger] main@[j], player),
            forall|j: int|
                0 <= j < extra@.len() ==> final(self)@.cards[old(self)@.cards.len() + main@.len()
                    + j] == (CardView {
                    location: LOCATION_EXTRA,
                    sequence: (old(self)@.field.stack(player as int, StackKind::Extra).len() + j)
                        as u8,
                    ..created_card(#[trigger] extra@[j], player)
                }),
            final(self)@.field.stack(player as int, StackKind::Deck) == Seq::new(
                main@.len(),
                |j: int| CardId((old(self)@.cards.len() + main@.len() - 1 - j) as u32),
            ) + old(self)@.field.stack(player as int, StackKind::Deck),
            final(self)@.field.stack(player as int, StackKind::Extra) == old(self)@.field.stack(
                player as int,
                StackKind::Extra,
            ) + Seq::new(
                extra@.len(),
                |j: int| CardId((old(self)@.cards.len() + main@.len() + j) as u32),
            ),
            final(self)@ == spec_load_deck(old(self)@, player, main@, extra@),
    {
        let ghost v0 = self@;
        let nmain = main.len();
        let mut i: usize = 0;
        while i < nmain
            invariant
                self@.inv(),
                player < 2,
                i <= nmain,
                nmain == main@.len(),
                v0.cards.len() + main@.len() + extra@.len() < u32::MAX,
                self@.cards.len() == v0.cards.len() + i,
                forall|j: int|
                    0 <= j < i ==> self@.cards[v0.cards.len() + j] == created_card(
                        #[trigger] main@[j],
                        player,
                    ),
                forall|j: int|
                    0 <= j < v0.cards.len() ==> self@.cards[j] == v0.cards[j],
                self@.field.stack(player as int, StackKind::Deck) == Seq::new(
                    i as nat,
                    |j: int| CardId((v0.cards.len() + i - 1 - j) as u32),
                ) + v0.field.stack(player as int, StackKind::Deck),
                self@.field == v0.field.set_stack(
                    player as int,
                    StackKind::Deck,
                    self@.field.stack(player as int, StackKind::Deck),
                ),
                self@.random == v0.random,
                self@.chain == v0.chain,
                self@.units == v0.units,
                self@.phase == v0.phase,
                self@.turn == v0.turn,
                self@.turn_player == v0.turn_player,
                self@.lp == v0.lp,
                self@.effects == v0.effects,
                self@.triggered == v0.triggered,
                self@.response == v0.response,
                self@.cond_responses == v0.cond_responses,
                self@.outbox == v0.outbox,
            decreases nmain - i,
        {
            let code = *vstd::slice::slice_index_get(main, i);
            let _id = self.data.create_card(code, player);
            proof {
                assert(self@.field.stack(player as int, StackKind::Deck) =~= Seq::new(
                    (i + 1) as nat,
                    |j: int| CardId((v0.cards.len() + i + 1 - 1 - j) as u32),
                ) + v0.field.stack(player as int, StackKind::Deck));
                assert(self@.field =~= v0.field.set_stack(
                    player as int,
                    StackKind::Deck,
                    self@.field.stack(player as int, StackKind::Deck),
                ));
            }
            i = i + 1;
        }
        let ghost vm = self@;
        let nextra = extra.len();
        let mut e: usize = 0;
        while e < nextra
            invariant
                self@.inv(),
                player < 2,
                e <= nextra,
                nextra == extra@.len(),
                vm.cards.len() + extra@.len() < u32::MAX,
                vm.cards.len() == v0.cards.len() + main@.len(),
                self@.cards.len() == vm.cards.len() + e,
                forall|j: int|
                    0 <= j < vm.cards.len() ==> self@.cards[j] == vm.cards[j],
                forall|j: int|
                    0 <= j < e ==> self@.cards[vm.cards.len() + j] == (CardView {
                        location: LOCATION_EXTRA,
                        sequence: (vm.field.stack(player as int, StackKind::Extra).len() + j)
                            as u8,
                        ..created_card(#[trigger] extra@[j], player)
                    }),
                self@.field.stack(player as int, StackKind::Extra) == vm.field.stack(
                    player as int,
                    StackKind::Extra,
                ) + Seq::new(e as nat, |j: int| CardId((vm.cards.len() + j) as u32)),
                self@.field == vm.field.set_stack(
                    player as int,
                    StackKind::Extra,
                    self@.field.stack(player as int, StackKind::Extra),
                ),
                self@.random == vm.random,
                self@.chain == vm.chain,
                self@.units == vm.units,
                self@.phase == vm.phase,
                self@.turn == vm.turn,
                self@.turn_player == vm.turn_player,
                self@.lp == vm.lp,
                self@.effects == vm.effects,
                self@.triggered == vm.triggered,
                self@.response == vm.response,
                self@.cond_responses == vm.cond_responses,
                self@.outbox == vm.outbox,
            decreases nextra - e,
        {
            let code = *vstd::slice::slice_index_get(extra, e);
            let elen = self.data.field.stack_len(player, LOCATION_EXTRA);
            let mut card = Card::new(code);
            card.owner = player;
            card.controller = player;
            card.location = LOCATION_EXTRA;
            card.sequence = #[verifier::truncate] (elen as u8);
            proof {
                lemma_location_places();
                assert(card@ =~= (CardView {
                    location: LOCATION_EXTRA,
                    sequence: (self@.field.stack(player as int, StackKind::Extra).len()) as u8,
                    ..created_card(code, player)
                }));
            }
            let _id = self.data.insert_new_card_extra(card, player);
            proof {
                assert(self@.field.stack(player as int, StackKind::Extra) =~= vm.field.stack(
                    player as int,
                    StackKind::Extra,
                ) + Seq::new((e + 1) as nat, |j: int| CardId((vm.cards.len() + j) as u32)));
                assert(self@.field =~= vm.field.set_stack(
                    player as int,
                    StackKind::Extra,
                    self@.field.stack(player as int, StackKind::Extra),
                ));
            }
            e = e + 1;
        }
        proof {
            assert(final(self)@.field.stack(player as int, StackKind::Deck) =~= Seq::new(
                main@.len(),
                |j: int| CardId((v0.cards.len() + main@.len() - 1 - j) as u32),
            ) + v0.field.stack(player as int, StackKind::Deck));
            assert(final(self)@.field.stack(player as int, StackKind::Extra) =~= v0.field.stack(
                player as int,
                StackKind::Extra,
            ) + Seq::new(
                extra@.len(),
                |j: int| CardId((v0.cards.len() + main@.len() + j) as u32),
            ));
            assert(final(self)@.cards =~= spec_load_deck(v0, player, main@, extra@).cards);
            assert(final(self)@.field =~= spec_load_deck(v0, player, main@, extra@).field);
            assert(final(self)@ =~= spec_load_deck(v0, player, main@, extra@));
        }
    }

    /// Reset the duel from a parsed replay: the generator is reseeded from
    /// the header, the processor queue holds a single turn unit, phase and
    /// turn restart, both players take the recorded starting life points
    /// (8000 when the record is not positive), and the first two recorded
    /// decks are loaded. Replaying the recorded actions is the caller's.
    pub fn load_replay(&mut self, replay: &crate::replay::Replay)
        requires
            old(self)@.inv(),
            old(self)@.cards.len() + (if replay@.decks.len() > 0 {
                replay@.decks[0].0.len() + replay@.decks[0].1.len()
            } else {
                0
            }) + (if replay@.decks.len() > 1 {
                replay@.decks[1].0.len() + replay@.decks[1].1.len()
            } else {
                0
            }) < u32::MAX,
        ensures
            final(self)@.inv(),
            final(self)@ == spec_load_replay(old(self)@, replay@),
    {
        let ghost v0 = self@;
        self.data.random = Mt19937::new(replay.header.seed);
        let mut units: VecDeque<ProcessorUnit> = VecDeque::new();
        units.push_back(ProcessorUnit::turn(0));
        self.data.processor_units = units;
        self.data.phase = 0;
        self.data.turn = 0;
        let start_lp: u32 = if replay.params.start_lp > 0 {
            replay.params.start_lp as u32
        } else {
            8000
        };
        self.data.lp = [start_lp, start_lp];
        proof {
            assert(self@.units =~= seq![ProcessorUnit::spec_new(ProcessorType::Turn, 0, 0, 0)]);
            assert(self@.lp =~= seq![start_lp, start_lp]);
            assert(self@ =~= spec_replay_reset(v0, replay@));
            lemma_inv_transfer(v0, self@);
        }
        if replay.decks.len() > 0 {
            let d0 = &replay.decks[0];
            self.load_deck(0, d0.main.as_slice(), d0.extra.as_slice());
        }
        if replay.decks.len() > 1 {
            let d1 = &replay.decks[1];
            self.load_deck(1, d1.main.as_slice(), d1.extra.as_slice());
        }
    }

    /// Summon a card for the player into their lowest free monster-zone
    /// slot, mark it as summoned this turn, and raise the summon-success
    /// event with the card as the event group. Fails — changing nothing —
    /// when no slot is free or the card id is outside the arena.
    pub fn summon(&mut self, player: u8, card_id: CardId, cond_results: &Vec<bool>) -> (r: bool)
        requires
            old(self)@.inv(),
            player < 2,
            cond_results@.len() == spec_matching(old(self)@.effects, EVENT_SUMMON_SUCCESS).len(),
        ensures
            final(self)@.inv(),
            r == (card_id.0 < old(self)@.cards.len() && exists|m: int|
                0 <= m < 7 && old(self)@.field.zone(player as int, ZoneKind::Monster)[m] is None),
            !r ==> final(self)@ == old(self)@,
            r ==> exists|slot: u8|
                #![auto]
                slot < 7 && old(self)@.field.zone(player as int, ZoneKind::Monster)[slot as int]
                    is None && (forall|m: int|
                    0 <= m < slot ==> old(self)@.field.zone(player as int, ZoneKind::Monster)[m]
                        is Some) && exists|vm: DuelView|
                    #![auto]
                    moved_state(old(self)@, vm, card_id, player, LOCATION_MZONE, slot)
                        && final(self)@ == spec_raise(
                        DuelView {
                            cards: vm.cards.update(
                                card_id.0 as int,
                                (CardView {
                                    status: vm.cards[card_id.0 as int].status | STATUS_SUMMON_TURN,
                                    ..vm.cards[card_id.0 as int]
                                }),
                            ),
                            ..vm
                        },
                        EVENT_SUMMON_SUCCESS,
                        Some(seq![card_id]),
                        player,
                        None,
                        cond_results@,
                    ),
    {
        let slot_opt = self.data.field.find_empty_mzone_slot(player);
        match slot_opt {
            None => {
                proof {
                    assert(forall|m: int|
                        0 <= m < 7 ==> old(self)@.field.zone(player as int, ZoneKind::Monster)[m]
                            is Some);
                }
                false
            },
            Some(slot) => {
                proof {
                    lemma_location_places();
                    assert(old(self)@.field.zone(player as int, ZoneKind::Monster)[slot as int]
                        is None);
                    assert(exists|m: int|
                        0 <= m < 7 && old(self)@.field.zone(player as int, ZoneKind::Monster)[m]
                            is None);
                }
                let moved = self.data.move_card(card_id, player, LOCATION_MZONE, slot);
                if moved {
                    let ghost vm = self@;
                    let idx = card_id.as_u32() as usize;
                    self.data.cards[idx].status = self.data.cards[idx].status
                        | STATUS_SUMMON_TURN;
                    let ghost vs = self@;
                    proof {
                        lemma_location_places();
                        assert(vs.cards =~= vm.cards.update(
                            card_id.0 as int,
                            (CardView {
                                status: vm.cards[card_id.0 as int].status | STATUS_SUMMON_TURN,
                                ..vm.cards[card_id.0 as int]
                            }),
                        ));
                        assert(vs =~= (DuelView {
                            cards: vm.cards.update(
                                card_id.0 as int,
                                (CardView {
                                    status: vm.cards[card_id.0 as int].status | STATUS_SUMMON_TURN,
                                    ..vm.cards[card_id.0 as int]
                                }),
                            ),
                            ..vm
                        }));
                        assert forall|j: int| 0 <= j < vs.cards.len() implies #[trigger] vs.placed(
                            j,
                        ) by {
                            assert(vm.placed(j));
                        }
                        assert(vs.effects_owned()) by {
                            assert forall|a: int, b: int|
                                0 <= a < vs.cards.len() && 0 <= b < vs.cards[a].effects.len()
                                    implies ((#[trigger] vs.cards[a].effects[b]).0
                                    < vs.effects.len() && vs.effects[vs.cards[a].effects[b].0
                                    as int].owner == CardId(a as u32)) by {
                                assert(vs.cards[a].effects == vm.cards[a].effects);
                            }
                        }
                    }
                    let mut group = Group::new();
                    group.add_card(card_id);
                    proof {
                        assert(group@ =~= seq![card_id]);
                    }
                    self.data.raise_event(
                        EVENT_SUMMON_SUCCESS,
                        Some(group),
                        player,
                        None,
                        cond_results,
                    );
                    proof {
                        let v0 = old(self)@;
                        assert(moved_state(v0, vm, card_id, player, LOCATION_MZONE, slot));
                        assert(self@ == spec_raise(
                            DuelView {
                                cards: vm.cards.update(
                                    card_id.0 as int,
                                    (CardView {
                                        status: vm.cards[card_id.0 as int].status
                                            | STATUS_SUMMON_TURN,
                                        ..vm.cards[card_id.0 as int]
                                    }),
                                ),
                                ..vm
                            },
                            EVENT_SUMMON_SUCCESS,
                            Some(seq![card_id]),
                            player,
                            None,
                            cond_results@,
                        ));
                    }
                    true
                } else {
                    false
                }
            },
        }
    }

    /// Drive one processor cycle; the exact transition is
    /// [`spec_process`]. A pending chain is drained first (its links'
    /// operations are the embedding host's to run; a host that needs them
    /// calls [`Duel::resolve_chain`] itself before processing).
    pub fn process(&mut self) -> (r: ProcessResult)
        requires
            old(self)@.inv(),
        ensures
            final(self)@.inv(),
            final(self)@ == spec_process(old(self)@).0,
            r == spec_process(old(self)@).1,
    {
        let ghost v0 = self@;
        if self.data.chain.links.len() > 0 {
            let _links = self.resolve_chain();
            return ProcessResult::Continue;
        }
        if self.data.processor_units.len() == 0 {
            return ProcessResult::End;
        }
        let u = self.data.processor_units[0];
        match u.type_ {
            ProcessorType::Turn => {
                self.data.turn = self.data.turn.wrapping_add(1);
                if self.data.turn == 1 {
                    let w = self.data.random.gen_u32();
                    self.data.turn_player = (w % 2) as u8;
                } else {
                    self.data.turn_player = 1 - self.data.turn_player;
                }
                let _ = self.data.processor_units.pop_front();
                self.data.processor_units.push_front(ProcessorUnit::phase_event(0, PHASE_DRAW));
                proof {
                    assert(self@.units =~= v0.units.drop_first().insert(
                        0,
                        ProcessorUnit::spec_new(ProcessorType::PhaseEvent, 0, PHASE_DRAW, 0),
                    ));
                    assert(self@.units =~= v0.units.update(
                        0,
                        ProcessorUnit::spec_new(ProcessorType::PhaseEvent, 0, PHASE_DRAW, 0),
                    ));
                    assert(self@ =~= spec_turn_step(v0));
                    lemma_inv_transfer(v0, self@);
                }
                ProcessResult::Continue
            },
            ProcessorType::PhaseEvent => {
                if u.arg1 == PHASE_DRAW {
                    if u.step == 0 {
                        let tp = self.data.turn_player;
                        self.data.draw(tp, 1);
                        let ghost vd = self@;
                        let cands = self.data.get_matching_effects(EVENT_DRAW);
                        proof {
                            lemma_matching_props(vd.effects, EVENT_DRAW, vd.effects.len() as int);
                            assert(spec_draw(v0, tp, 0) == v0);
                            assert(vd == spec_draw_one(v0, tp));
                            assert(vd.units == v0.units && vd.effects == v0.effects
                                && vd.turn_player == v0.turn_player && vd.cond_responses
                                == v0.cond_responses && vd.outbox == v0.outbox);
                        }
                        let has_cond = any_condition(&self.data.effects, &cands);
                        if has_cond {
                            let _ = self.data.processor_units.pop_front();
                            self.data.processor_units.push_front(
                                ProcessorUnit::new(ProcessorType::PhaseEvent, 1, u.arg1, u.arg2),
                            );
                            proof {
                                assert(self@.units =~= vd.units.update(
                                    0,
                                    ProcessorUnit::spec_new(u.type_, 1, u.arg1, u.arg2),
                                ));
                                lemma_inv_transfer(vd, self@);
                                assert(self@ =~= spec_draw_phase(v0).0);
                            }
                            ProcessResult::Waiting
                        } else {
                            let conds = vec![false; cands.len()];
                            proof {
                                assert(conds@ =~= adjusted_conds(
                                    Seq::empty(),
                                    spec_matching(vd.effects, EVENT_DRAW).len() as int,
                                ));
                            }
                            self.data.raise_event(EVENT_DRAW, None, tp, None, &conds);
                            let ghost vr = self@;
                            self.data.cond_responses = Vec::new();
                            let _ = self.data.processor_units.pop_front();
                            self.data.processor_units.push_front(
                                ProcessorUnit::new(ProcessorType::PointEvent, 0, 0, 0),
                            );
                            proof {
                                lemma_inv_transfer(vr, self@);
                                assert(self@.cond_responses =~= Seq::<bool>::empty());
                                assert(self@.units =~= vr.units.update(
                                    0,
                                    ProcessorUnit::spec_new(ProcessorType::PointEvent, 0, 0, 0),
                                ));
                                assert(self@ =~= spec_draw_phase(v0).0);
                            }
                            ProcessResult::Continue
                        }
                    } else if u.step == 1 {
                        let tp = self.data.turn_player;
                        let cands = self.data.get_matching_effects(EVENT_DRAW);
                        let conds = adjusted_responses(&self.data.cond_responses, cands.len());
                        self.data.raise_event(EVENT_DRAW, None, tp, None, &conds);
                        let ghost vr = self@;
                        self.data.cond_responses = Vec::new();
                        let _ = self.data.processor_units.pop_front();
                        self.data.processor_units.push_front(
                            ProcessorUnit::new(ProcessorType::PointEvent, 0, 0, 0),
                        );
                        proof {
                            lemma_inv_transfer(vr, self@);
                            assert(self@.cond_responses =~= Seq::<bool>::empty());
                            assert(self@.units =~= vr.units.update(
                                0,
                                ProcessorUnit::spec_new(ProcessorType::PointEvent, 0, 0, 0),
                            ));
                            assert(self@ =~= spec_draw_phase_raise(
                                v0,
                                adjusted_conds(
                                    v0.cond_responses,
                                    spec_matching(v0.effects, EVENT_DRAW).len() as int,
                                ),
                            ));
                        }
                        ProcessResult::Continue
                    } else {
                        let _ = self.data.processor_units.pop_front();
                        proof {
                            assert(self@ =~= (DuelView { units: v0.units.drop_first(), ..v0 }));
                            lemma_inv_transfer(v0, self@);
                        }
                        ProcessResult::Continue
                    }
                } else if u.arg1 == PHASE_MAIN1 || u.arg1 == PHASE_MAIN2 {
                    ProcessResult::Waiting
                } else {
                    let _ = self.data.processor_units.pop_front();
                    proof {
                        assert(self@ =~= (DuelView { units: v0.units.drop_first(), ..v0 }));
                        lemma_inv_transfer(v0, self@);
                    }
                    ProcessResult::Continue
                }
            },
            ProcessorType::PointEvent => {
                if self.data.triggered_effects.len() == 0 {
                    let _ = self.data.processor_units.pop_front();
                    proof {
                        assert(self@ =~= (DuelView { units: v0.units.drop_first(), ..v0 }));
                        lemma_inv_transfer(v0, self@);
                    }
                    ProcessResult::Continue
                } else {
                    let _ = self.data.processor_units.pop_front();
                    self.data.processor_units.push_front(
                        ProcessorUnit::new(ProcessorType::SelectChain, 0, 0, 0),
                    );
                    proof {
                        assert(self@.units =~= v0.units.update(
                            0,
                            ProcessorUnit::spec_new(ProcessorType::SelectChain, 0, 0, 0),
                        ));
                        assert(self@ =~= (DuelView {
                            units: v0.units.update(
                                0,
                                ProcessorUnit::spec_new(ProcessorType::SelectChain, 0, 0, 0),
                            ),
                            ..v0
                        }));
                        lemma_inv_transfer(v0, self@);
                    }
                    ProcessResult::Continue
                }
            },
            ProcessorType::SelectChain => {
                if u.step == 0 {
                    let msg = crate::messages::select_chain_msg(
                        self.data.turn_player,
                        &self.data.triggered_effects,
                    );
                    self.data.outbox.push(msg);
                    let _ = self.data.processor_units.pop_front();
                    self.data.processor_units.push_front(
                        ProcessorUnit::new(ProcessorType::SelectChain, 1, u.arg1, u.arg2),
                    );
                    proof {
                        assert(self@.units =~= v0.units.update(
                            0,
                            ProcessorUnit::spec_new(u.type_, 1, u.arg1, u.arg2),
                        ));
                        assert(self@.outbox =~= v0.outbox.push(
                            crate::messages::spec_select_chain_msg(v0.turn_player, v0.triggered),
                        ));
                        assert(self@ =~= (DuelView {
                            units: v0.units.update(
                                0,
                                ProcessorUnit::spec_new(u.type_, 1, u.arg1, u.arg2),
                            ),
                            outbox: v0.outbox.push(
                                crate::messages::spec_select_chain_msg(
                                    v0.turn_player,
                                    v0.triggered,
                                ),
                            ),
                            ..v0
                        }));
                        lemma_inv_transfer(v0, self@);
                    }
                    ProcessResult::Waiting
                } else if u.step == 1 {
                    let resp = self.data.response;
                    let found = if resp != 0 {
                        contains_effect(
                            &self.data.triggered_effects,
                            EffectId::new(#[verifier::truncate] (resp as u32)),
                        )
                    } else {
                        false
                    };
                    self.data.triggered_effects.clear();
                    self.data.response = 0;
                    let _ = self.data.processor_units.pop_front();
                    if found {
                        self.data.processor_units.push_front(ProcessorUnit::solve_chain(0));
                    } else {
                        self.data.processor_units.push_front(
                            ProcessorUnit::phase_event(0, PHASE_MAIN1),
                        );
                    }
                    proof {
                        assert(self@.triggered =~= Seq::<EffectId>::empty());
                        assert(self@.units =~= spec_select_chain_choice(v0).units);
                        assert(self@ =~= spec_select_chain_choice(v0));
                        lemma_inv_transfer(v0, self@);
                    }
                    ProcessResult::Continue
                } else {
                    let _ = self.data.processor_units.pop_front();
                    proof {
                        assert(self@ =~= (DuelView { units: v0.units.drop_first(), ..v0 }));
                        lemma_inv_transfer(v0, self@);
                    }
                    ProcessResult::Continue
                }
            },
            ProcessorType::SolveChain => {
                if u.step == 0 {
                    let _ = self.data.processor_units.pop_front();
                    self.data.processor_units.push_front(
                        ProcessorUnit::phase_event(0, PHASE_MAIN1),
                    );
                    proof {
                        assert(self@.units =~= v0.units.update(
                            0,
                            ProcessorUnit::spec_new(ProcessorType::PhaseEvent, 0, PHASE_MAIN1, 0),
                        ));
                        assert(self@ =~= (DuelView {
                            units: v0.units.update(
                                0,
                                ProcessorUnit::spec_new(
                                    ProcessorType::PhaseEvent,
                                    0,
                                    PHASE_MAIN1,
                                    0,
                                ),
                            ),
                            ..v0
                        }));
                        lemma_inv_transfer(v0, self@);
                    }
                    ProcessResult::Continue
                } else {
                    let _ = self.data.processor_units.pop_front();
                    proof {
                        assert(self@ =~= (DuelView { units: v0.units.drop_first(), ..v0 }));
                        lemma_inv_transfer(v0, self@);
                    }
                    ProcessResult::Continue
                }
            },
            _ => {
                let _ = self.data.processor_units.pop_front();
                proof {
                    assert(self@ =~= (DuelView { units: v0.units.drop_first(), ..v0 }));
                    lemma_inv_transfer(v0, self@);
                }
                ProcessResult::Continue
            },
        }
    }
}

/// Whether any of the candidate effects carries a condition callback.
fn any_condition(effects: &Vec<Effect>, cands: &Vec<EffectId>) -> (r: bool)
    requires
        forall|j: int| 0 <= j < cands@.len() ==> (#[trigger] cands@[j]).0 < effects@.len(),
    ensures
        r == exists|j: int|
            0 <= j < cands@.len() && effects@[(#[trigger] cands@[j]).0 as int].condition is Some,
{
    let n = cands.len();
    let mut i: usize = 0;
    while i < n
        invariant
            n == cands@.len(),
            i <= n,
            forall|j: int| 0 <= j < cands@.len() ==> (#[trigger] cands@[j]).0 < effects@.len(),
            forall|j: int|
                0 <= j < i ==> effects@[(#[trigger] cands@[j]).0 as int].condition is None,
        decreases n - i,
    {
        if effects[cands[i].0 as usize].condition.is_some() {
            return true;
        }
        i = i + 1;
    }
    false
}

/// One condition outcome per candidate: the host's entries in order, padded
/// with false.
fn adjusted_responses(given: &Vec<bool>, n: usize) -> (r: Vec<bool>)
    ensures
        r@ == adjusted_conds(given@, n as int),
{
    let mut out: Vec<bool> = Vec::new();
    let mut i: usize = 0;
    while i < n
        invariant
            i <= n,
            out@.len() == i,
            forall|j: int| 0 <= j < i ==> #[trigger] out@[j] == (j < given@.len() && given@[j]),
        decreases n - i,
    {
        let v = if i < given.len() {
            given[i]
        } else {
            false
        };
        out.push(v);
        i = i + 1;
    }
    proof {
        assert(out@ =~= adjusted_conds(given@, n as int));
    }
    out
}

/// The invariant only reads the arenas, the field, the generator shape, the
/// scores' shape and the turn player: a transition that keeps those keeps
/// the invariant.
proof fn lemma_inv_transfer(v0: DuelView, v1: DuelView)
    requires
        v0.inv(),
        v1.cards == v0.cards,
        v1.field == v0.field,
        v1.effects == v0.effects,
        v1.lp.len() == 2,
        v1.random.wf(),
        v1.turn_player < 2,
    ensures
        v1.inv(),
{
    assert forall|j: int| 0 <= j < v1.cards.len() implies #[trigger] v1.placed(j) by {
        assert(v0.placed(j));
    }
    assert forall|idu: u32| idu >= v1.cards.len() implies #[trigger] field_occ(
        v1.field,
        CardId(idu),
    ) == 0 by {
        assert(field_occ(v0.field, CardId(idu)) == 0);
    }
    assert(v1.effects_owned()) by {
        assert forall|a: int, b: int|
            0 <= a < v1.cards.len() && 0 <= b < v1.cards[a].effects.len() implies ((
        #[trigger] v1.cards[a].effects[b]).0 < v1.effects.len()
            && v1.effects[v1.cards[a].effects[b].0 as int].owner == CardId(a as u32)) by {
            assert(v0.cards[a].effects[b] == v1.cards[a].effects[b]);
        }
    }
}

} // verus!
