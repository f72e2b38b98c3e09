//! Events: named occurrences that cause candidate-effect evaluation.

use vstd::prelude::*;

use crate::group::Group;
use crate::types::EffectId;
use crate::chain::group_opt_view;

verus! {

/// Model of an event.
#[verifier::ext_equal]
pub ghost struct EventView {
    pub code: u32,
    pub reason_effect: Option<EffectId>,
    pub reason_player: u8,
    pub event_cards: Option<Seq<crate::types::CardId>>,
}

/// A named occurrence used to notify the engine and trigger effects.
#[derive(Debug)]
pub struct Event {
    pub code: u32,
    pub reason_effect: Option<EffectId>,
    pub reason_player: u8,
    pub event_cards: Option<Group>,
}

impl View for Event {
    type V = EventView;

    open spec fn view(&self) -> EventView {
        EventView {
            code: self.code,
            reason_effect: self.reason_effect,
            reason_player: self.reason_player,
            event_cards: group_opt_view(self.event_cards),
        }
    }
}

impl Event {
    /// Bundle the fields of an event.
    pub fn new(
        code: u32,
        reason_effect: Option<EffectId>,
        reason_player: u8,
        event_cards: Option<Group>,
    ) -> (r: Self)
        ensures
            r.code == code,
            r.reason_effect == reason_effect,
            r.reason_player == reason_player,
            r@.event_cards == group_opt_view(event_cards),
    {
        Event { code, reason_effect, reason_player, event_cards }
    }
}

} // verus!
