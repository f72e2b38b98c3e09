//! Card records: identity, stat blocks, placement state and owned effects.

use vstd::prelude::*;

use crate::enums::{CardPosition, CardStatus, CardType, CardAttribute, CardRace, Location};
use crate::enums::intersects;
use crate::types::EffectId;

verus! {

/// One block of card statistics. Cards carry two: the printed values and the
/// current (possibly modified) values.
#[derive(Debug, Clone, Copy, PartialEq, Eq, Structural)]
pub struct StatBlock {
    pub type_: CardType,
    pub level: u32,
    pub rank: u32,
    pub link: u32,
    pub code2: u32,
    pub lscale: u32,
    pub rscale: u32,
    pub attribute: CardAttribute,
    pub race: CardRace,
    pub attack: i32,
    pub defense: i32,
    pub base_attack: i32,
    pub base_defense: i32,
}

impl StatBlock {
    /// The all-zero stat block: every mask empty, every stat zero.
    pub open spec fn spec_zeroed() -> StatBlock {
        StatBlock {
            type_: 0,
            level: 0,
            rank: 0,
            link: 0,
            code2: 0,
            lscale: 0,
            rscale: 0,
            attribute: 0,
            race: 0,
            attack: 0,
            defense: 0,
            base_attack: 0,
            base_defense: 0,
        }
    }
}

impl Default for StatBlock {
    fn default() -> (r: Self)
        ensures
            r == StatBlock::spec_zeroed(),
    {
        StatBlock {
            type_: 0,
            level: 0,
            rank: 0,
            link: 0,
            code2: 0,
            lscale: 0,
            rscale: 0,
            attribute: 0,
            race: 0,
            attack: 0,
            defense: 0,
            base_attack: 0,
            base_defense: 0,
        }
    }
}

/// Mathematical model of a card record; `effects` is the sequence of owned
/// effect handles.
#[verifier::ext_equal]
pub ghost struct CardView {
    pub code: u32,
    pub alias: u32,
    pub original_stats: StatBlock,
    pub current_stats: StatBlock,
    pub location: Location,
    pub sequence: u8,
    pub position: CardPosition,
    pub owner: u8,
    pub controller: u8,
    pub reason: u32,
    pub status: CardStatus,
    pub effects: Seq<EffectId>,
}

/// One game entity. A card never references other cards or the duel directly;
/// all cross-references go through ids.
#[derive(Debug)]
pub struct Card {
    pub code: u32,
    pub alias: u32,
    pub original_stats: StatBlock,
    pub current_stats: StatBlock,
    pub location: Location,
    pub sequence: u8,
    pub position: CardPosition,
    pub owner: u8,
    pub controller: u8,
    pub reason: u32,
    pub status: CardStatus,
    pub effects: Vec<EffectId>,
}

impl View for Card {
    type V = CardView;

    open spec fn view(&self) -> CardView {
        CardView {
            code: self.code,
            alias: self.alias,
            original_stats: self.original_stats,
            current_stats: self.current_stats,
            location: self.location,
            sequence: self.sequence,
            position: self.position,
            owner: self.owner,
            controller: self.controller,
            reason: self.reason,
            status: self.status,
            effects: self.effects@,
        }
    }
}

impl Clone for Card {
    fn clone(&self) -> (r: Self)
        ensures
            r@ == self@,
    {
        let r = Card {
            code: self.code,
            alias: self.alias,
            original_stats: self.original_stats,
            current_stats: self.current_stats,
            location: self.location,
            sequence: self.sequence,
            position: self.position,
            owner: self.owner,
            controller: self.controller,
            reason: self.reason,
            status: self.status,
            effects: self.effects.clone(),
        };
        proof {
            assert(r.effects@ =~= self.effects@);
            assert(r@ =~= self@);
        }
        r
    }
}

impl CardView {
    /// The fresh record built by [`Card::new`].
    pub open spec fn spec_new(code: u32) -> CardView {
        CardView {
            code: code,
            alias: 0,
            original_stats: StatBlock::spec_zeroed(),
            current_stats: StatBlock::spec_zeroed(),
            location: 0,
            sequence: 0,
            position: 0,
            owner: 0,
            controller: 0,
            reason: 0,
            status: 0,
            effects: Seq::empty(),
        }
    }
}

impl Card {
    /// A new card with the given `code` and everything else zeroed.
    pub fn new(code: u32) -> (r: Self)
        ensures
            r@ == CardView::spec_new(code),
    {
        let r = Card {
            code: code,
            alias: 0,
            original_stats: StatBlock::default(),
            current_stats: StatBlock::default(),
            location: 0,
            sequence: 0,
            position: 0,
            owner: 0,
            controller: 0,
            reason: 0,
            status: 0,
            effects: Vec::new(),
        };
        proof {
            assert(r@ =~= CardView::spec_new(code));
        }
        r
    }

    /// Mark the given status bits on the card.
    pub fn set_status(&mut self, status: CardStatus)
        ensures
            final(self)@ == (CardView { status: old(self).status | status, ..old(self)@ }),
    {
        self.status = self.status | status;
    }

    /// Clear the given status bits on the card.
    pub fn clear_status(&mut self, status: CardStatus)
        ensures
            final(self)@ == (CardView { status: old(self).status & !status, ..old(self)@ }),
    {
        self.status = self.status & !status;
    }

    /// Test whether the card has at least one of the `status` bits set.
    pub fn has_status(&self, status: CardStatus) -> (r: bool)
        ensures
            r == intersects(self.status, status),
    {
        self.status & status != 0
    }
}

} // verus!
