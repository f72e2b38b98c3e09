//! Deterministic rules engine for a two-player trading-card duel simulator.
//!
//! The crate holds the duel kernel: an arena-based card/effect store, the
//! per-player field, a Mersenne-Twister random number generator with an
//! unbiased ranged draw, the chain of triggered effects with frozen event
//! snapshots, the processor-unit queue that drives turns and phases, a binary
//! replay container reader, and the codec for the observable message protocol.
//!
//! Script execution, the card-metadata database and all file handling are
//! collaborators outside this crate; the engine exchanges plain values with
//! them.

pub mod card;
pub mod chain;
pub mod effect;
pub mod enums;
pub mod event;
pub mod field;
pub mod group;
pub mod counting;
pub mod database;
pub mod duel;
pub mod messages;
pub mod mtrandom;
pub mod processor;
pub mod replay;
pub mod scripting;
pub mod text;
pub mod types;
