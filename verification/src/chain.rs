//! The chain: triggered effects awaiting resolution, each with a frozen
//! snapshot of the event that triggered it.

use vstd::prelude::*;

use crate::group::Group;
use crate::types::EffectId;

verus! {

/// Model of an optional group: the sequence of its members, if present.
pub open spec fn group_opt_view(g: Option<Group>) -> Option<Seq<crate::types::CardId>> {
    match g {
        Some(gr) => Some(gr@),
        None => None,
    }
}

/// Mathematical model of one chain link.
#[verifier::ext_equal]
pub ghost struct ChainLinkView {
    pub effect_id: EffectId,
    pub trigger_player: u8,
    pub check_player: u8,
    pub target_cards: Option<Seq<crate::types::CardId>>,
    pub reason_effect: Option<EffectId>,
    pub reason_player: u8,
    pub evt_group: Option<Seq<crate::types::CardId>>,
    pub evt_player: u8,
    pub evt_value: u32,
    pub evt_effect: Option<EffectId>,
    pub evt_reason: u32,
    pub evt_r_player: u8,
}

/// One entry of the chain. The `evt_*` fields are the frozen event context,
/// copied at trigger time; resolution rebuilds callback arguments from them,
/// never from the live duel state.
#[derive(Debug)]
pub struct ChainLink {
    pub effect_id: EffectId,
    pub trigger_player: u8,
    pub check_player: u8,
    pub target_cards: Option<Group>,
    pub reason_effect: Option<EffectId>,
    pub reason_player: u8,
    pub evt_group: Option<Group>,
    pub evt_player: u8,
    pub evt_value: u32,
    pub evt_effect: Option<EffectId>,
    pub evt_reason: u32,
    pub evt_r_player: u8,
}

impl View for ChainLink {
    type V = ChainLinkView;

    open spec fn view(&self) -> ChainLinkView {
        ChainLinkView {
            effect_id: self.effect_id,
            trigger_player: self.trigger_player,
            check_player: self.check_player,
            target_cards: group_opt_view(self.target_cards),
            reason_effect: self.reason_effect,
            reason_player: self.reason_player,
            evt_group: group_opt_view(self.evt_group),
            evt_player: self.evt_player,
            evt_value: self.evt_value,
            evt_effect: self.evt_effect,
            evt_reason: self.evt_reason,
            evt_r_player: self.evt_r_player,
        }
    }
}

/// The chain of pending triggered effects, resolved strictly last-in
/// first-out.
#[derive(Debug)]
pub struct Chain {
    pub links: Vec<ChainLink>,
}

impl View for Chain {
    type V = Seq<ChainLinkView>;

    open spec fn view(&self) -> Seq<ChainLinkView> {
        Seq::new(self.links@.len(), |i: int| self.links@[i]@)
    }
}

impl Chain {
    /// An empty chain.
    pub fn new() -> (r: Self)
        ensures
            r@ == Seq::<ChainLinkView>::empty(),
    {
        let r = Chain { links: Vec::new() };
        proof {
            assert(r@ =~= Seq::<ChainLinkView>::empty());
        }
        r
    }

    /// Push a link on top of the chain.
    pub fn add(&mut self, link: ChainLink)
        ensures
            final(self)@ == old(self)@.push(link@),
    {
        self.links.push(link);
        proof {
            assert(self@ =~= old(self)@.push(link@));
        }
    }

    /// Pop the most recently pushed link, if any: the link pushed last
    /// resolves first.
    pub fn pop(&mut self) -> (r: Option<ChainLink>)
        ensures
            match r {
                Some(link) => old(self)@.len() > 0 && link@ == old(self)@.last() && final(self)@
                    == old(self)@.drop_last(),
                None => old(self)@.len() == 0 && final(self)@ == old(self)@,
            },
    {
        let r = self.links.pop();
        proof {
            if old(self)@.len() > 0 {
                assert(self@ =~= old(self)@.drop_last());
            } else {
                assert(self@ =~= old(self)@);
            }
        }
        r
    }
}

/// Last-in-first-out resolution: if link `a` is pushed and then link `b` is
/// pushed with no pop between them, the next pop yields `b`, and `a` only
/// comes out after it.
pub proof fn lemma_chain_lifo(s: Seq<ChainLinkView>, a: ChainLinkView, b: ChainLinkView)
    ensures
        s.push(a).push(b).last() == b,
        s.push(a).push(b).drop_last() == s.push(a),
        s.push(a).last() == a,
{
    assert(s.push(a).push(b).drop_last() =~= s.push(a));
}

} // verus!
