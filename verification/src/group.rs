//! Groups: collections of card ids handed to effect callbacks.

use vstd::prelude::*;

use crate::types::CardId;

verus! {

/// A collection of distinct card ids, the unit passed to script callbacks to
/// describe an event's affected cards. Viewed as the sequence of its members
/// in insertion order; well-formed groups hold no duplicates.
#[derive(Debug)]
pub struct Group(pub Vec<CardId>);

impl View for Group {
    type V = Seq<CardId>;

    open spec fn view(&self) -> Seq<CardId> {
        self.0@
    }
}

impl Clone for Group {
    fn clone(&self) -> (r: Self)
        ensures
            r@ == self@,
    {
        let r = Group(self.0.clone());
        proof {
            assert(r.0@ =~= self.0@);
        }
        r
    }
}

impl Group {
    /// No duplicate members.
    pub open spec fn wf(self) -> bool {
        forall|i: int, j: int| 0 <= i < j < self@.len() ==> self@[i] != self@[j]
    }

    /// Creates a new empty group.
    pub fn new() -> (r: Self)
        ensures
            r@ == Seq::<CardId>::empty(),
            r.wf(),
    {
        let r = Group(Vec::new());
        proof {
            assert(r@ =~= Seq::<CardId>::empty());
        }
        r
    }

    /// The number of cards in the group.
    pub fn count(&self) -> (r: usize)
        ensures
            r == self@.len(),
    {
        self.0.len()
    }

    /// Whether the group holds the given card.
    pub fn contains(&self, card: CardId) -> (r: bool)
        ensures
            r == self@.contains(card),
    {
        let n = self.0.len();
        let mut i: usize = 0;
        while i < n
            invariant
                n == self@.len(),
                i <= n,
                forall|j: int| 0 <= j < i ==> self@[j] != card,
            decreases n - i,
        {
            if self.0[i] == card {
                return true;
            }
            i = i + 1;
        }
        false
    }

    /// Add a card to the group; a card already present is not added again.
    pub fn add_card(&mut self, card: CardId)
        ensures
            final(self)@ == if old(self)@.contains(card) {
                old(self)@
            } else {
                old(self)@.push(card)
            },
            old(self).wf() ==> final(self).wf(),
    {
        if !self.contains(card) {
            self.0.push(card);
        }
    }
}

} // verus!
