//! Effect records: card-attached behaviours with opaque callback handles.

use vstd::prelude::*;

use crate::types::CardId;

verus! {

/// A card-attached behaviour. The four optional fields hold opaque handles to
/// script callbacks (condition, cost, target, operation); the handles are
/// owned by the embedding script host, the engine only stores them.
#[derive(Debug, Clone, Copy, PartialEq, Eq)]
pub struct Effect {
    pub id: u32,
    pub owner: CardId,
    pub description: u32,
    pub code: u32,
    pub type_: u32,
    pub range: u32,
    pub flag: u32,
    pub condition: Option<u32>,
    pub cost: Option<u32>,
    pub target: Option<u32>,
    pub operation: Option<u32>,
}

impl Effect {
    /// The record built by [`Effect::new`].
    pub open spec fn spec_new(
        id: u32,
        owner: CardId,
        description: u32,
        code: u32,
        type_: u32,
        range: u32,
        flag: u32,
    ) -> Effect {
        Effect {
            id,
            owner,
            description,
            code,
            type_,
            range,
            flag,
            condition: None,
            cost: None,
            target: None,
            operation: None,
        }
    }

    /// A new effect with the given fields and no callbacks.
    pub fn new(
        id: u32,
        owner: CardId,
        description: u32,
        code: u32,
        type_: u32,
        range: u32,
        flag: u32,
    ) -> (r: Self)
        ensures
            r == Effect::spec_new(id, owner, description, code, type_, range, flag),
    {
        Effect {
            id,
            owner,
            description,
            code,
            type_,
            range,
            flag,
            condition: None,
            cost: None,
            target: None,
            operation: None,
        }
    }

    /// A blank effect, as handed to scripts before its fields are set. The
    /// card argument mirrors the script-facing constructor and is not stored;
    /// the owner is stamped at registration.
    pub fn create_effect(card: Option<CardId>) -> (r: Self)
        ensures
            r == Effect::spec_new(0, CardId(0), 0, 0, 0, 0, 0),
    {
        let _ = card;
        Effect {
            id: 0,
            owner: CardId::new(0),
            description: 0,
            code: 0,
            type_: 0,
            range: 0,
            flag: 0,
            condition: None,
            cost: None,
            target: None,
            operation: None,
        }
    }
}

} // verus!
