//! Bitmask constants for card types, attributes, races, positions,
//! locations, phases, card status and event codes.
//!
//! Each family is a plain `u32` bitmask; the aliases name the role a mask
//! plays in a record. A value may combine several bits of its family.

use vstd::prelude::*;

verus! {

/// Bitmask over the card-type flags (`TYPE_*`).
pub type CardType = u32;

/// Bitmask over the attribute flags (`ATTRIBUTE_*`).
pub type CardAttribute = u32;

/// Bitmask over the race flags (`RACE_*`).
pub type CardRace = u32;

/// Bitmask over the battle-position flags (`POS_*`).
pub type CardPosition = u32;

/// Bitmask over the location flags (`LOCATION_*`).
pub type Location = u32;

/// Bitmask over the phase flags (`PHASE_*`).
pub type Phase = u32;

/// Bitmask over the card-status flags (`STATUS_*`).
pub type CardStatus = u32;

pub const TYPE_MONSTER: u32 = 0x1;
pub const TYPE_SPELL: u32 = 0x2;
pub const TYPE_TRAP: u32 = 0x4;
pub const TYPE_NORMAL: u32 = 0x10;
pub const TYPE_EFFECT: u32 = 0x20;
pub const TYPE_FUSION: u32 = 0x40;
pub const TYPE_RITUAL: u32 = 0x80;
pub const TYPE_TRAPMONSTER: u32 = 0x100;
pub const TYPE_SPIRIT: u32 = 0x200;
pub const TYPE_UNION: u32 = 0x400;
pub const TYPE_DUAL: u32 = 0x800;
pub const TYPE_TUNER: u32 = 0x1000;
pub const TYPE_SYNCHRO: u32 = 0x2000;
pub const TYPE_TOKEN: u32 = 0x4000;
pub const TYPE_QUICKPLAY: u32 = 0x10000;
pub const TYPE_CONTINUOUS: u32 = 0x20000;
pub const TYPE_EQUIP: u32 = 0x40000;
pub const TYPE_FIELD: u32 = 0x80000;
pub const TYPE_COUNTER: u32 = 0x100000;
pub const TYPE_FLIP: u32 = 0x200000;
pub const TYPE_TOON: u32 = 0x400000;
pub const TYPE_XYZ: u32 = 0x800000;
pub const TYPE_PENDULUM: u32 = 0x1000000;
pub const TYPE_SPSUMMON: u32 = 0x2000000;
pub const TYPE_LINK: u32 = 0x4000000;

pub const ATTRIBUTE_EARTH: u32 = 0x1;
pub const ATTRIBUTE_WATER: u32 = 0x2;
pub const ATTRIBUTE_FIRE: u32 = 0x4;
pub const ATTRIBUTE_WIND: u32 = 0x8;
pub const ATTRIBUTE_LIGHT: u32 = 0x10;
pub const ATTRIBUTE_DARK: u32 = 0x20;
pub const ATTRIBUTE_DEVINE: u32 = 0x40;

pub const RACE_WARRIOR: u32 = 0x1;
pub const RACE_SPELLCASTER: u32 = 0x2;
pub const RACE_FAIRY: u32 = 0x4;
pub const RACE_FIEND: u32 = 0x8;
pub const RACE_ZOMBIE: u32 = 0x10;
pub const RACE_MACHINE: u32 = 0x20;
pub const RACE_AQUA: u32 = 0x40;
pub const RACE_PYRO: u32 = 0x80;
pub const RACE_ROCK: u32 = 0x100;
pub const RACE_WINDBEAST: u32 = 0x200;
pub const RACE_PLANT: u32 = 0x400;
pub const RACE_INSECT: u32 = 0x800;
pub const RACE_THUNDER: u32 = 0x1000;
pub const RACE_DRAGON: u32 = 0x2000;
pub const RACE_BEAST: u32 = 0x4000;
pub const RACE_BEASTWARRIOR: u32 = 0x8000;
pub const RACE_DINOSAUR: u32 = 0x10000;
pub const RACE_FISH: u32 = 0x20000;
pub const RACE_SEASERPENT: u32 = 0x40000;
pub const RACE_REPTILE: u32 = 0x80000;
pub const RACE_PSYCHO: u32 = 0x100000;
pub const RACE_DEVINE: u32 = 0x200000;
pub const RACE_CREATORGOD: u32 = 0x400000;
pub const RACE_WYRM: u32 = 0x800000;
pub const RACE_CYBERSE: u32 = 0x1000000;
pub const RACE_ILLUSION: u32 = 0x2000000;

pub const POS_FACEUP_ATTACK: u32 = 0x1;
pub const POS_FACEDOWN_ATTACK: u32 = 0x2;
pub const POS_FACEUP_DEFENSE: u32 = 0x4;
pub const POS_FACEDOWN_DEFENSE: u32 = 0x8;
pub const POS_FACEUP: u32 = 0x5;
pub const POS_FACEDOWN: u32 = 0xA;
pub const POS_ATTACK: u32 = 0x3;
pub const POS_DEFENSE: u32 = 0xC;

pub const LOCATION_DECK: u32 = 0x1;
pub const LOCATION_HAND: u32 = 0x2;
pub const LOCATION_MZONE: u32 = 0x4;
pub const LOCATION_SZONE: u32 = 0x8;
pub const LOCATION_GRAVE: u32 = 0x10;
pub const LOCATION_REMOVED: u32 = 0x20;
pub const LOCATION_EXTRA: u32 = 0x40;
pub const LOCATION_OVERLAY: u32 = 0x80;
pub const LOCATION_ONFIELD: u32 = 0xC;
pub const LOCATION_FZONE: u32 = 0x100;
pub const LOCATION_PZONE: u32 = 0x200;
pub const LOCATION_DECKBOT: u32 = 0x10001;
pub const LOCATION_DECKSHF: u32 = 0x20001;

pub const PHASE_DRAW: u32 = 0x1;
pub const PHASE_STANDBY: u32 = 0x2;
pub const PHASE_MAIN1: u32 = 0x4;
pub const PHASE_BATTLE_START: u32 = 0x8;
pub const PHASE_BATTLE_STEP: u32 = 0x10;
pub const PHASE_DAMAGE: u32 = 0x20;
pub const PHASE_DAMAGE_CAL: u32 = 0x40;
pub const PHASE_BATTLE: u32 = 0x80;
pub const PHASE_MAIN2: u32 = 0x100;
pub const PHASE_END: u32 = 0x200;

pub const STATUS_DISABLED: u32 = 0x1;
pub const STATUS_SUMMON_TURN: u32 = 0x2;

/// Event code raised when a summon completes.
pub const EVENT_SUMMON_SUCCESS: u32 = 0x1000;

/// Event code raised after the turn player draws.
pub const EVENT_DRAW: u32 = 0x1001;

/// Event code raised when a card changes location.
pub const EVENT_MOVE: u32 = 0x1002;

/// Reason code recorded on a card moved by an effect.
pub const REASON_EFFECT: u32 = 0x1;

/// True when `value` has at least one of the `mask` bits set.
pub open spec fn intersects(value: u32, mask: u32) -> bool {
    value & mask != 0
}

/// True when a location mask selects one of the five ordered stacks.
pub open spec fn is_stack_location(loc: Location) -> bool {
    ||| intersects(loc, LOCATION_DECK)
    ||| intersects(loc, LOCATION_HAND)
    ||| intersects(loc, LOCATION_GRAVE)
    ||| intersects(loc, LOCATION_REMOVED)
    ||| intersects(loc, LOCATION_EXTRA)
}

} // verus!
