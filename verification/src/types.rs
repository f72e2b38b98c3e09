//! Opaque handles into the duel's arenas.

use vstd::prelude::*;

verus! {

/// Index of a card record in the duel's card arena. Handles are the sole
/// cross-component reference to a card; no long-lived pointers to card
/// records exist outside the arena.
#[derive(Debug, Clone, Copy, PartialEq, Eq, Hash, PartialOrd, Ord, Structural)]
pub struct CardId(pub u32);

impl CardId {
    pub fn new(idx: u32) -> (r: Self)
        ensures
            r == (CardId(idx)),
    {
        CardId(idx)
    }

    pub fn as_u32(self) -> (r: u32)
        ensures
            r == self.0,
    {
        self.0
    }
}

impl Default for CardId {
    fn default() -> (r: Self)
        ensures
            r == (CardId(0)),
    {
        CardId(0)
    }
}

/// Index of an effect record in the duel's effect arena.
#[derive(Debug, Clone, Copy, PartialEq, Eq, Hash, Structural)]
pub struct EffectId(pub u32);

impl EffectId {
    pub fn new(idx: u32) -> (r: Self)
        ensures
            r == (EffectId(idx)),
    {
        EffectId(idx)
    }

    pub fn as_u32(self) -> (r: u32)
        ensures
            r == self.0,
    {
        self.0
    }
}

impl Default for EffectId {
    fn default() -> (r: Self)
        ensures
            r == (EffectId(0)),
    {
        EffectId(0)
    }
}

} // verus!
