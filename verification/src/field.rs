//! The field: per-player ordered stacks (deck, hand, grave, removed, extra)
//! and fixed zone arrays (7 monster slots, 8 spell/trap slots).

use vstd::prelude::*;

use crate::enums::{intersects, Location, LOCATION_DECK, LOCATION_HAND, LOCATION_GRAVE,
    LOCATION_REMOVED, LOCATION_EXTRA, LOCATION_MZONE, LOCATION_SZONE};
use crate::types::CardId;

verus! {

/// The five ordered stacks a player owns.
#[derive(Debug, Clone, Copy, PartialEq, Eq, Structural)]
pub enum StackKind {
    Deck,
    Hand,
    Grave,
    Removed,
    Extra,
}

/// The two fixed zone arrays a player owns.
#[derive(Debug, Clone, Copy, PartialEq, Eq, Structural)]
pub enum ZoneKind {
    Monster,
    SpellTrap,
}

/// Where a location mask places a card, decided by the same priority order
/// the field's operations use: deck, hand, grave, removed, extra, monster
/// zone, spell/trap zone.
#[derive(Debug, Clone, Copy, PartialEq, Eq, Structural)]
pub enum Place {
    Stack(StackKind),
    Zone(ZoneKind),
    Nowhere,
}

/// The place a location mask selects.
pub open spec fn place_of(loc: Location) -> Place {
    if intersects(loc, LOCATION_DECK) {
        Place::Stack(StackKind::Deck)
    } else if intersects(loc, LOCATION_HAND) {
        Place::Stack(StackKind::Hand)
    } else if intersects(loc, LOCATION_GRAVE) {
        Place::Stack(StackKind::Grave)
    } else if intersects(loc, LOCATION_REMOVED) {
        Place::Stack(StackKind::Removed)
    } else if intersects(loc, LOCATION_EXTRA) {
        Place::Stack(StackKind::Extra)
    } else if intersects(loc, LOCATION_MZONE) {
        Place::Zone(ZoneKind::Monster)
    } else if intersects(loc, LOCATION_SZONE) {
        Place::Zone(ZoneKind::SpellTrap)
    } else {
        Place::Nowhere
    }
}

/// The place each single-location mask selects.
pub proof fn lemma_location_places()
    ensures
        place_of(LOCATION_DECK) == Place::Stack(StackKind::Deck),
        place_of(LOCATION_HAND) == Place::Stack(StackKind::Hand),
        place_of(LOCATION_GRAVE) == Place::Stack(StackKind::Grave),
        place_of(LOCATION_REMOVED) == Place::Stack(StackKind::Removed),
        place_of(LOCATION_EXTRA) == Place::Stack(StackKind::Extra),
        place_of(LOCATION_MZONE) == Place::Zone(ZoneKind::Monster),
        place_of(LOCATION_SZONE) == Place::Zone(ZoneKind::SpellTrap),
{
    assert((0x1u32 & 0x1u32 != 0) && (0x2u32 & 0x1u32 == 0) && (0x2u32 & 0x2u32 != 0) && (0x10u32
        & 0x1u32 == 0) && (0x10u32 & 0x2u32 == 0) && (0x10u32 & 0x10u32 != 0) && (0x20u32 & 0x1u32
        == 0) && (0x20u32 & 0x2u32 == 0) && (0x20u32 & 0x10u32 == 0) && (0x20u32 & 0x20u32 != 0)
        && (0x40u32 & 0x1u32 == 0) && (0x40u32 & 0x2u32 == 0) && (0x40u32 & 0x10u32 == 0) && (
    0x40u32 & 0x20u32 == 0) && (0x40u32 & 0x40u32 != 0) && (0x4u32 & 0x1u32 == 0) && (0x4u32
        & 0x2u32 == 0) && (0x4u32 & 0x10u32 == 0) && (0x4u32 & 0x20u32 == 0) && (0x4u32 & 0x40u32
        == 0) && (0x4u32 & 0x4u32 != 0) && (0x8u32 & 0x1u32 == 0) && (0x8u32 & 0x2u32 == 0) && (
    0x8u32 & 0x10u32 == 0) && (0x8u32 & 0x20u32 == 0) && (0x8u32 & 0x40u32 == 0) && (0x8u32
        & 0x4u32 == 0) && (0x8u32 & 0x8u32 != 0)) by (bit_vector);
}

/// Mathematical model of one player's side of the field.
#[verifier::ext_equal]
pub ghost struct SideView {
    pub deck: Seq<CardId>,
    pub hand: Seq<CardId>,
    pub grave: Seq<CardId>,
    pub remove: Seq<CardId>,
    pub extra: Seq<CardId>,
    pub mzone: Seq<Option<CardId>>,
    pub szone: Seq<Option<CardId>>,
}

impl SideView {
    /// Zone arrays have their fixed capacities.
    pub open spec fn wf(self) -> bool {
        &&& self.mzone.len() == 7
        &&& self.szone.len() == 8
    }

    /// The selected stack.
    pub open spec fn stack(self, k: StackKind) -> Seq<CardId> {
        match k {
            StackKind::Deck => self.deck,
            StackKind::Hand => self.hand,
            StackKind::Grave => self.grave,
            StackKind::Removed => self.remove,
            StackKind::Extra => self.extra,
        }
    }

    /// This side with the selected stack replaced.
    pub open spec fn set_stack(self, k: StackKind, s: Seq<CardId>) -> SideView {
        match k {
            StackKind::Deck => SideView { deck: s, ..self },
            StackKind::Hand => SideView { hand: s, ..self },
            StackKind::Grave => SideView { grave: s, ..self },
            StackKind::Removed => SideView { remove: s, ..self },
            StackKind::Extra => SideView { extra: s, ..self },
        }
    }

    /// The selected zone array.
    pub open spec fn zone(self, z: ZoneKind) -> Seq<Option<CardId>> {
        match z {
            ZoneKind::Monster => self.mzone,
            ZoneKind::SpellTrap => self.szone,
        }
    }

    /// This side with the selected zone array replaced.
    pub open spec fn set_zone(self, z: ZoneKind, s: Seq<Option<CardId>>) -> SideView {
        match z {
            ZoneKind::Monster => SideView { mzone: s, ..self },
            ZoneKind::SpellTrap => SideView { szone: s, ..self },
        }
    }
}

/// Mathematical model of the whole field.
#[verifier::ext_equal]
pub ghost struct FieldView {
    pub p0: SideView,
    pub p1: SideView,
}

impl FieldView {
    /// Both sides are well shaped.
    pub open spec fn wf(self) -> bool {
        &&& self.p0.wf()
        &&& self.p1.wf()
    }

    /// The given player's side.
    pub open spec fn side(self, p: int) -> SideView {
        if p == 0 {
            self.p0
        } else {
            self.p1
        }
    }

    /// The field with the given player's side replaced.
    pub open spec fn set_side(self, p: int, s: SideView) -> FieldView {
        if p == 0 {
            FieldView { p0: s, ..self }
        } else {
            FieldView { p1: s, ..self }
        }
    }

    /// The selected stack of the given player.
    pub open spec fn stack(self, p: int, k: StackKind) -> Seq<CardId> {
        self.side(p).stack(k)
    }

    /// The field with that stack replaced.
    pub open spec fn set_stack(self, p: int, k: StackKind, s: Seq<CardId>) -> FieldView {
        self.set_side(p, self.side(p).set_stack(k, s))
    }

    /// The selected zone array of the given player.
    pub open spec fn zone(self, p: int, z: ZoneKind) -> Seq<Option<CardId>> {
        self.side(p).zone(z)
    }

    /// The field with that zone array replaced.
    pub open spec fn set_zone(self, p: int, z: ZoneKind, s: Seq<Option<CardId>>) -> FieldView {
        self.set_side(p, self.side(p).set_zone(z, s))
    }
}

/// One player's side of the field.
#[derive(Debug)]
pub struct Side {
    pub deck: Vec<CardId>,
    pub hand: Vec<CardId>,
    pub grave: Vec<CardId>,
    pub remove: Vec<CardId>,
    pub extra: Vec<CardId>,
    pub mzone: Vec<Option<CardId>>,
    pub szone: Vec<Option<CardId>>,
}

impl View for Side {
    type V = SideView;

    open spec fn view(&self) -> SideView {
        SideView {
            deck: self.deck@,
            hand: self.hand@,
            grave: self.grave@,
            remove: self.remove@,
            extra: self.extra@,
            mzone: self.mzone@,
            szone: self.szone@,
        }
    }
}

impl Side {
    /// An empty side: empty stacks, 7 free monster slots, 8 free spell/trap
    /// slots.
    fn new() -> (r: Self)
        ensures
            r@.wf(),
            r@.deck == Seq::<CardId>::empty(),
            r@.hand == Seq::<CardId>::empty(),
            r@.grave == Seq::<CardId>::empty(),
            r@.remove == Seq::<CardId>::empty(),
            r@.extra == Seq::<CardId>::empty(),
            forall|i: int| 0 <= i < 7 ==> r@.mzone[i] is None,
            forall|i: int| 0 <= i < 8 ==> r@.szone[i] is None,
    {
        let mut mzone: Vec<Option<CardId>> = Vec::new();
        let mut i: usize = 0;
        while i < 7
            invariant
                i <= 7,
                mzone@.len() == i,
                forall|j: int| 0 <= j < i ==> mzone@[j] is None,
            decreases 7 - i,
        {
            mzone.push(None);
            i = i + 1;
        }
        let mut szone: Vec<Option<CardId>> = Vec::new();
        let mut j: usize = 0;
        while j < 8
            invariant
                j <= 8,
                szone@.len() == j,
                forall|k: int| 0 <= k < j ==> szone@[k] is None,
            decreases 8 - j,
        {
            szone.push(None);
            j = j + 1;
        }
        let r = Side {
            deck: Vec::new(),
            hand: Vec::new(),
            grave: Vec::new(),
            remove: Vec::new(),
            extra: Vec::new(),
            mzone,
            szone,
        };
        proof {
            assert(r@.deck =~= Seq::<CardId>::empty());
            assert(r@.hand =~= Seq::<CardId>::empty());
            assert(r@.grave =~= Seq::<CardId>::empty());
            assert(r@.remove =~= Seq::<CardId>::empty());
            assert(r@.extra =~= Seq::<CardId>::empty());
        }
        r
    }

    /// Add a card to this side at the given location: stacks append, zone
    /// slots are written at `sequence` (out-of-range zone placements are
    /// ignored), an empty mask places nothing.
    fn add_card(&mut self, location: Location, card: CardId, sequence: u8)
        ensures
            final(self)@ == match place_of(location) {
                Place::Stack(k) => old(self)@.set_stack(
                    k,
                    old(self)@.stack(k).push(card),
                ),
                Place::Zone(z) => if (sequence as int) < old(self)@.zone(z).len() {
                    old(self)@.set_zone(
                        z,
                        old(self)@.zone(z).update(sequence as int, Some(card)),
                    )
                } else {
                    old(self)@
                },
                Place::Nowhere => old(self)@,
            },
    {
        if location & LOCATION_DECK != 0 {
            self.deck.push(card);
            proof {
                assert(self@ =~= old(self)@.set_stack(
                    StackKind::Deck,
                    old(self)@.stack(StackKind::Deck).push(card),
                ));
            }
        } else if location & LOCATION_HAND != 0 {
            self.hand.push(card);
            proof {
                assert(self@ =~= old(self)@.set_stack(
                    StackKind::Hand,
                    old(self)@.stack(StackKind::Hand).push(card),
                ));
            }
        } else if location & LOCATION_GRAVE != 0 {
            self.grave.push(card);
            proof {
                assert(self@ =~= old(self)@.set_stack(
                    StackKind::Grave,
                    old(self)@.stack(StackKind::Grave).push(card),
                ));
            }
        } else if location & LOCATION_REMOVED != 0 {
            self.remove.push(card);
            proof {
                assert(self@ =~= old(self)@.set_stack(
                    StackKind::Removed,
                    old(self)@.stack(StackKind::Removed).push(card),
                ));
            }
        } else if location & LOCATION_EXTRA != 0 {
            self.extra.push(card);
            proof {
                assert(self@ =~= old(self)@.set_stack(
                    StackKind::Extra,
                    old(self)@.stack(StackKind::Extra).push(card),
                ));
            }
        } else if location & LOCATION_MZONE != 0 {
            let idx = sequence as usize;
            if idx < self.mzone.len() {
                self.mzone.set(idx, Some(card));
                proof {
                    assert(self@ =~= old(self)@.set_zone(
                        ZoneKind::Monster,
                        old(self)@.zone(ZoneKind::Monster).update(sequence as int, Some(card)),
                    ));
                }
            }
        } else if location & LOCATION_SZONE != 0 {
            let idx = sequence as usize;
            if idx < self.szone.len() {
                self.szone.set(idx, Some(card));
                proof {
                    assert(self@ =~= old(self)@.set_zone(
                        ZoneKind::SpellTrap,
                        old(self)@.zone(ZoneKind::SpellTrap).update(sequence as int, Some(card)),
                    ));
                }
            }
        }
    }

    /// Remove by index: stacks give up the card at `sequence`, zone slots
    /// give up and clear the slot at `sequence`.
    fn remove_card(&mut self, location: Location, sequence: u8) -> (r: Option<CardId>)
        ensures
            match place_of(location) {
                Place::Stack(k) => if (sequence as int) < old(self)@.stack(k).len() {
                    r == Some(old(self)@.stack(k)[sequence as int]) && final(self)@ == old(
                        self,
                    )@.set_stack(k, old(self)@.stack(k).remove(sequence as int))
                } else {
                    r is None && final(self)@ == old(self)@
                },
                Place::Zone(z) => if (sequence as int) < old(self)@.zone(z).len() {
                    r == old(self)@.zone(z)[sequence as int] && final(self)@ == old(
                        self,
                    )@.set_zone(z, old(self)@.zone(z).update(sequence as int, None))
                } else {
                    r is None && final(self)@ == old(self)@
                },
                Place::Nowhere => r is None && final(self)@ == old(self)@,
            },
    {
        let idx = sequence as usize;
        if location & LOCATION_DECK != 0 {
            if idx < self.deck.len() {
                let c = self.deck.remove(idx);
                proof {
                    assert(self@ =~= old(self)@.set_stack(
                        StackKind::Deck,
                        old(self)@.stack(StackKind::Deck).remove(sequence as int),
                    ));
                }
                Some(c)
            } else {
                None
            }
        } else if location & LOCATION_HAND != 0 {
            if idx < self.hand.len() {
                let c = self.hand.remove(idx);
                proof {
                    assert(self@ =~= old(self)@.set_stack(
                        StackKind::Hand,
                        old(self)@.stack(StackKind::Hand).remove(sequence as int),
                    ));
                }
                Some(c)
            } else {
                None
            }
        } else if location & LOCATION_GRAVE != 0 {
            if idx < self.grave.len() {
                let c = self.grave.remove(idx);
                proof {
                    assert(self@ =~= old(self)@.set_stack(
                        StackKind::Grave,
                        old(self)@.stack(StackKind::Grave).remove(sequence as int),
                    ));
                }
                Some(c)
            } else {
                None
            }
        } else if location & LOCATION_REMOVED != 0 {
            if idx < self.remove.len() {
                let c = self.remove.remove(idx);
                proof {
                    assert(self@ =~= old(self)@.set_stack(
                        StackKind::Removed,
                        old(self)@.stack(StackKind::Removed).remove(sequence as int),
                    ));
                }
                Some(c)
            } else {
                None
            }
        } else if location & LOCATION_EXTRA != 0 {
            if idx < self.extra.len() {
                let c = self.extra.remove(idx);
                proof {
                    assert(self@ =~= old(self)@.set_stack(
                        StackKind::Extra,
                        old(self)@.stack(StackKind::Extra).remove(sequence as int),
                    ));
                }
                Some(c)
            } else {
                None
            }
        } else if location & LOCATION_MZONE != 0 {
            if idx < self.mzone.len() {
                let c = self.mzone[idx];
                self.mzone.set(idx, None);
                proof {
                    assert(self@ =~= old(self)@.set_zone(
                        ZoneKind::Monster,
                        old(self)@.zone(ZoneKind::Monster).update(sequence as int, None),
                    ));
                }
                c
            } else {
                None
            }
        } else if location & LOCATION_SZONE != 0 {
            if idx < self.szone.len() {
                let c = self.szone[idx];
                self.szone.set(idx, None);
                proof {
                    assert(self@ =~= old(self)@.set_zone(
                        ZoneKind::SpellTrap,
                        old(self)@.zone(ZoneKind::SpellTrap).update(sequence as int, None),
                    ));
                }
                c
            } else {
                None
            }
        } else {
            None
        }
    }

    /// Remove a card from a stack by its id: the first occurrence is taken
    /// out. Zone masks and empty masks remove nothing.
    fn remove_card_from_stack(&mut self, location: Location, card: CardId) -> (r: Option<
        CardId,
    >)
        ensures
            match place_of(location) {
                Place::Stack(k) => if old(self)@.stack(k).contains(card) {
                    r == Some(card) && exists|i: int|
                        0 <= i < old(self)@.stack(k).len() && old(self)@.stack(k)[i] == card && (
                        forall|j: int| 0 <= j < i ==> old(self)@.stack(k)[j] != card)
                            && final(self)@ == old(self)@.set_stack(
                            k,
                            old(self)@.stack(k).remove(i),
                        )
                } else {
                    r is None && final(self)@ == old(self)@
                },
                Place::Zone(_) => r is None && final(self)@ == old(self)@,
                Place::Nowhere => r is None && final(self)@ == old(self)@,
            },
    {
        if location & LOCATION_DECK != 0 {
            match Self::position_of(&self.deck, card) {
                Some(i) => {
                    let c = self.deck.remove(i);
                    proof {
                        assert(self@ =~= old(self)@.set_stack(
                            StackKind::Deck,
                            old(self)@.stack(StackKind::Deck).remove(i as int),
                        ));
                    }
                    Some(c)
                },
                None => None,
            }
        } else if location & LOCATION_HAND != 0 {
            match Self::position_of(&self.hand, card) {
                Some(i) => {
                    let c = self.hand.remove(i);
                    proof {
                        assert(self@ =~= old(self)@.set_stack(
                            StackKind::Hand,
                            old(self)@.stack(StackKind::Hand).remove(i as int),
                        ));
                    }
                    Some(c)
                },
                None => None,
            }
        } else if location & LOCATION_GRAVE != 0 {
            match Self::position_of(&self.grave, card) {
                Some(i) => {
                    let c = self.grave.remove(i);
                    proof {
                        assert(self@ =~= old(self)@.set_stack(
                            StackKind::Grave,
                            old(self)@.stack(StackKind::Grave).remove(i as int),
                        ));
                    }
                    Some(c)
                },
                None => None,
            }
        } else if location & LOCATION_REMOVED != 0 {
            match Self::position_of(&self.remove, card) {
                Some(i) => {
                    let c = self.remove.remove(i);
                    proof {
                        assert(self@ =~= old(self)@.set_stack(
                            StackKind::Removed,
                            old(self)@.stack(StackKind::Removed).remove(i as int),
                        ));
                    }
                    Some(c)
                },
                None => None,
            }
        } else if location & LOCATION_EXTRA != 0 {
            match Self::position_of(&self.extra, card) {
                Some(i) => {
                    let c = self.extra.remove(i);
                    proof {
                        assert(self@ =~= old(self)@.set_stack(
                            StackKind::Extra,
                            old(self)@.stack(StackKind::Extra).remove(i as int),
                        ));
                    }
                    Some(c)
                },
                None => None,
            }
        } else {
            None
        }
    }

    /// The index of the first occurrence of `card`, if any.
    fn position_of(v: &Vec<CardId>, card: CardId) -> (r: Option<usize>)
        ensures
            match r {
                Some(i) => i < v@.len() && v@[i as int] == card && forall|j: int|
                    0 <= j < i ==> v@[j] != card,
                None => !v@.contains(card),
            },
    {
        let n = v.len();
        let mut i: usize = 0;
        while i < n
            invariant
                n == v@.len(),
                i <= n,
                forall|j: int| 0 <= j < i ==> v@[j] != card,
            decreases n - i,
        {
            if v[i] == card {
                return Some(i);
            }
            i = i + 1;
        }
        None
    }

    /// The smallest free monster-zone index, if any slot is free.
    fn find_empty_mzone_slot(&self) -> (r: Option<u8>)
        requires
            self@.wf(),
        ensures
            match r {
                Some(i) => i < 7 && self@.mzone[i as int] is None && forall|j: int|
                    0 <= j < i ==> self@.mzone[j] is Some,
                None => forall|j: int| 0 <= j < 7 ==> self@.mzone[j] is Some,
            },
    {
        let mut i: usize = 0;
        while i < 7
            invariant
                self@.wf(),
                i <= 7,
                forall|j: int| 0 <= j < i ==> self@.mzone[j] is Some,
            decreases 7 - i,
        {
            if self.mzone[i].is_none() {
                return Some(i as u8);
            }
            i = i + 1;
        }
        None
    }
}

/// Card ids per player and location. Stacks are ordered sequences; zone
/// arrays hold at most one card per slot.
#[derive(Debug)]
pub struct Field {
    pub p0: Side,
    pub p1: Side,
}

impl View for Field {
    type V = FieldView;

    open spec fn view(&self) -> FieldView {
        FieldView { p0: self.p0@, p1: self.p1@ }
    }
}

impl Field {
    /// An empty field.
    pub fn new() -> (r: Self)
        ensures
            r@.wf(),
            forall|p: int, k: StackKind| 0 <= p < 2 ==> (#[trigger] r@.stack(p, k)).len() == 0,
            forall|p: int, i: int| 0 <= p < 2 && 0 <= i < 7 ==> r@.side(p).mzone[i] is None,
            forall|p: int, i: int| 0 <= p < 2 && 0 <= i < 8 ==> r@.side(p).szone[i] is None,
    {
        Field { p0: Side::new(), p1: Side::new() }
    }

    /// Add a card for the given player: stacks append, zone slots are
    /// written at `sequence` and out-of-range zone placements are ignored.
    pub fn add_card(&mut self, player: u8, location: Location, card: CardId, sequence: u8)
        requires
            player < 2,
        ensures
            final(self)@ == match place_of(location) {
                Place::Stack(k) => old(self)@.set_stack(
                    player as int,
                    k,
                    old(self)@.stack(player as int, k).push(card),
                ),
                Place::Zone(z) => if (sequence as int) < old(self)@.zone(
                    player as int,
                    z,
                ).len() {
                    old(self)@.set_zone(
                        player as int,
                        z,
                        old(self)@.zone(player as int, z).update(sequence as int, Some(card)),
                    )
                } else {
                    old(self)@
                },
                Place::Nowhere => old(self)@,
            },
    {
        if player == 0 {
            self.p0.add_card(location, card, sequence);
        } else {
            self.p1.add_card(location, card, sequence);
        }
        proof {
            lemma_side_transition(old(self)@, self@, old(self)@.side(player as int), self@.side(player as int), player as int);
        }
    }

    /// Remove a card of the given player by index; zone slots are cleared,
    /// stacks close up.
    pub fn remove_card(&mut self, player: u8, location: Location, sequence: u8) -> (r: Option<
        CardId,
    >)
        requires
            player < 2,
        ensures
            match place_of(location) {
                Place::Stack(k) => if (sequence as int) < old(self)@.stack(
                    player as int,
                    k,
                ).len() {
                    r == Some(old(self)@.stack(player as int, k)[sequence as int]) && final(self)@ == old(self)@.set_stack(
                        player as int,
                        k,
                        old(self)@.stack(player as int, k).remove(sequence as int),
                    )
                } else {
                    r is None && final(self)@ == old(self)@
                },
                Place::Zone(z) => if (sequence as int) < old(self)@.zone(
                    player as int,
                    z,
                ).len() {
                    r == old(self)@.zone(player as int, z)[sequence as int] && final(self)@
                        == old(self)@.set_zone(
                        player as int,
                        z,
                        old(self)@.zone(player as int, z).update(sequence as int, None),
                    )
                } else {
                    r is None && final(self)@ == old(self)@
                },
                Place::Nowhere => r is None && final(self)@ == old(self)@,
            },
    {
        let r = if player == 0 {
            self.p0.remove_card(location, sequence)
        } else {
            self.p1.remove_card(location, sequence)
        };
        proof {
            lemma_side_transition(old(self)@, self@, old(self)@.side(player as int), self@.side(player as int), player as int);
        }
        r
    }

    /// Remove a card of the given player from a stack by its id.
    pub fn remove_card_from_stack(&mut self, player: u8, location: Location, card: CardId) -> (r:
        Option<CardId>)
        requires
            player < 2,
        ensures
            match place_of(location) {
                Place::Stack(k) => if old(self)@.stack(player as int, k).contains(card) {
                    r == Some(card) && exists|i: int|
                        0 <= i < old(self)@.stack(player as int, k).len() && old(self)@.stack(
                            player as int,
                            k,
                        )[i] == card && (forall|j: int|
                            0 <= j < i ==> old(self)@.stack(player as int, k)[j] != card)
                            && final(self)@ == old(self)@.set_stack(
                            player as int,
                            k,
                            old(self)@.stack(player as int, k).remove(i),
                        )
                } else {
                    r is None && final(self)@ == old(self)@
                },
                Place::Zone(_) => r is None && final(self)@ == old(self)@,
                Place::Nowhere => r is None && final(self)@ == old(self)@,
            },
    {
        let r = if player == 0 {
            self.p0.remove_card_from_stack(location, card)
        } else {
            self.p1.remove_card_from_stack(location, card)
        };
        proof {
            lemma_side_transition(old(self)@, self@, old(self)@.side(player as int), self@.side(player as int), player as int);
        }
        r
    }

    /// The smallest free monster-zone index of the given player.
    pub fn find_empty_mzone_slot(&self, player: u8) -> (r: Option<u8>)
        requires
            player < 2,
            self@.wf(),
        ensures
            match r {
                Some(i) => i < 7 && self@.side(player as int).mzone[i as int] is None && forall|
                    j: int,
                |
                    0 <= j < i ==> self@.side(player as int).mzone[j] is Some,
                None => forall|j: int| 0 <= j < 7 ==> self@.side(player as int).mzone[j] is Some,
            },
    {
        if player == 0 {
            self.p0.find_empty_mzone_slot()
        } else {
            self.p1.find_empty_mzone_slot()
        }
    }

    /// A copy of the selected stack of the given player; an empty vector for
    /// zone or empty masks.
    pub fn stack_cards(&self, player: u8, location: Location) -> (r: Vec<CardId>)
        requires
            player < 2,
        ensures
            r@ == match place_of(location) {
                Place::Stack(k) => self@.stack(player as int, k),
                Place::Zone(_) => Seq::<CardId>::empty(),
                Place::Nowhere => Seq::<CardId>::empty(),
            },
    {
        let side = if player == 0 {
            &self.p0
        } else {
            &self.p1
        };
        if location & LOCATION_DECK != 0 {
            copy_ids(&side.deck)
        } else if location & LOCATION_HAND != 0 {
            copy_ids(&side.hand)
        } else if location & LOCATION_GRAVE != 0 {
            copy_ids(&side.grave)
        } else if location & LOCATION_REMOVED != 0 {
            copy_ids(&side.remove)
        } else if location & LOCATION_EXTRA != 0 {
            copy_ids(&side.extra)
        } else {
            let r = Vec::new();
            proof {
                assert(r@ =~= Seq::<CardId>::empty());
            }
            r
        }
    }

    /// Take the card at the top (the end) of the selected stack of the given
    /// player; `None` for an empty stack, a zone mask or an empty mask.
    pub fn pop_stack(&mut self, player: u8, location: Location) -> (r: Option<CardId>)
        requires
            player < 2,
        ensures
            match place_of(location) {
                Place::Stack(k) => if old(self)@.stack(player as int, k).len() > 0 {
                    r == Some(old(self)@.stack(player as int, k).last()) && final(self)@ == old(
                        self,
                    )@.set_stack(
                        player as int,
                        k,
                        old(self)@.stack(player as int, k).drop_last(),
                    )
                } else {
                    r is None && final(self)@ == old(self)@
                },
                Place::Zone(_) => r is None && final(self)@ == old(self)@,
                Place::Nowhere => r is None && final(self)@ == old(self)@,
            },
    {
        let side = if player == 0 {
            &mut self.p0
        } else {
            &mut self.p1
        };
        let r = if location & LOCATION_DECK != 0 {
            side.deck.pop()
        } else if location & LOCATION_HAND != 0 {
            side.hand.pop()
        } else if location & LOCATION_GRAVE != 0 {
            side.grave.pop()
        } else if location & LOCATION_REMOVED != 0 {
            side.remove.pop()
        } else if location & LOCATION_EXTRA != 0 {
            side.extra.pop()
        } else {
            None
        };
        proof {
            lemma_side_transition(
                old(self)@,
                self@,
                old(self)@.side(player as int),
                self@.side(player as int),
                player as int,
            );
            match place_of(location) {
                Place::Stack(k) => {
                    if old(self)@.stack(player as int, k).len() > 0 {
                        assert(self@.side(player as int) =~= old(self)@.side(
                            player as int,
                        ).set_stack(k, old(self)@.stack(player as int, k).drop_last()));
                    } else {
                        assert(self@ =~= old(self)@);
                    }
                },
                _ => {
                    assert(self@ =~= old(self)@);
                },
            }
        }
        r
    }

    /// Insert a card at the bottom (the front) of the given player's deck.
    pub fn push_deck_front(&mut self, player: u8, card: CardId)
        requires
            player < 2,
        ensures
            final(self)@ == old(self)@.set_stack(
                player as int,
                StackKind::Deck,
                old(self)@.stack(player as int, StackKind::Deck).insert(0, card),
            ),
    {
        if player == 0 {
            self.p0.deck.insert(0, card);
        } else {
            self.p1.deck.insert(0, card);
        }
        proof {
            lemma_side_transition(
                old(self)@,
                self@,
                old(self)@.side(player as int),
                self@.side(player as int),
                player as int,
            );
            assert(self@.side(player as int) =~= old(self)@.side(player as int).set_stack(
                StackKind::Deck,
                old(self)@.stack(player as int, StackKind::Deck).insert(0, card),
            ));
        }
    }

    /// The length of the selected stack of the given player; zero for zone
    /// or empty masks.
    pub fn stack_len(&self, player: u8, location: Location) -> (r: usize)
        requires
            player < 2,
        ensures
            r == match place_of(location) {
                Place::Stack(k) => self@.stack(player as int, k).len(),
                Place::Zone(_) => 0,
                Place::Nowhere => 0,
            },
    {
        let side = if player == 0 {
            &self.p0
        } else {
            &self.p1
        };
        if location & LOCATION_DECK != 0 {
            side.deck.len()
        } else if location & LOCATION_HAND != 0 {
            side.hand.len()
        } else if location & LOCATION_GRAVE != 0 {
            side.grave.len()
        } else if location & LOCATION_REMOVED != 0 {
            side.remove.len()
        } else if location & LOCATION_EXTRA != 0 {
            side.extra.len()
        } else {
            0
        }
    }

    /// The monster-zone slot at `index` of the given player.
    pub fn mzone_at(&self, player: u8, index: usize) -> (r: Option<CardId>)
        requires
            player < 2,
            self@.wf(),
            index < 7,
        ensures
            r == self@.side(player as int).mzone[index as int],
    {
        if player == 0 {
            self.p0.mzone[index]
        } else {
            self.p1.mzone[index]
        }
    }

    /// The spell/trap-zone slot at `index` of the given player.
    pub fn szone_at(&self, player: u8, index: usize) -> (r: Option<CardId>)
        requires
            player < 2,
            self@.wf(),
            index < 8,
        ensures
            r == self@.side(player as int).szone[index as int],
    {
        if player == 0 {
            self.p0.szone[index]
        } else {
            self.p1.szone[index]
        }
    }
}

/// A copy of a vector of card ids.
fn copy_ids(v: &Vec<CardId>) -> (r: Vec<CardId>)
    ensures
        r@ == v@,
{
    let n = v.len();
    let mut r: Vec<CardId> = Vec::new();
    let mut i: usize = 0;
    while i < n
        invariant
            n == v@.len(),
            i <= n,
            r@ == v@.subrange(0, i as int),
        decreases n - i,
    {
        r.push(v[i]);
        proof {
            assert(r@ =~= v@.subrange(0, i + 1));
        }
        i = i + 1;
    }
    proof {
        assert(v@.subrange(0, n as int) =~= v@);
    }
    r
}

/// A side transition lifts to the field: if only player `p`'s side changed,
/// the new field is the old one with that side replaced.
proof fn lemma_side_transition(
    oldf: FieldView,
    newf: FieldView,
    olds: SideView,
    news: SideView,
    p: int,
)
    requires
        0 <= p < 2,
        olds == oldf.side(p),
        news == newf.side(p),
        p == 0 ==> newf.p1 == oldf.p1,
        p == 1 ==> newf.p0 == oldf.p0,
    ensures
        newf == oldf.set_side(p, news),
{
}

} // verus!
