//! The record shape served by the card-metadata collaborator.
//!
//! The collaborator itself (a read-only lookup by card code) lives outside
//! the engine; the engine only consumes its rows as plain values.

use vstd::prelude::*;

verus! {

/// One row of card metadata, as the lookup collaborator returns it.
#[derive(Debug, Clone, Copy, PartialEq, Eq, Structural)]
pub struct CardData {
    pub code: u32,
    pub alias: u32,
    pub setcode: u64,
    pub type_: u32,
    pub level: u32,
    pub attribute: u32,
    pub race: u32,
    pub attack: i32,
    pub defense: i32,
    pub lscale: u32,
    pub rscale: u32,
}

} // verus!
