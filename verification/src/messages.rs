//! The observable message protocol: a one-byte tag followed by a
//! little-endian payload. Every parser takes a payload slice and returns a
//! structured value when the slice is long enough; trailing bytes are
//! ignored, exactly as a cursor-based reader would leave them. Encoders
//! produce the canonical payload, and each message's decode of its encode is
//! proved to give the message back.

use vstd::prelude::*;
use vstd::bytes::{spec_u16_from_le_bytes, spec_u16_to_le_bytes, spec_u32_from_le_bytes,
    spec_u32_to_le_bytes, u16_from_le_bytes, u16_to_le_bytes, u32_from_le_bytes, u32_to_le_bytes,
    lemma_auto_spec_u16_to_from_le_bytes, lemma_auto_spec_u32_to_from_le_bytes};
use vstd::slice::{slice_subrange, slice_to_vec};

verus! {

/// The message tags of the protocol; a byte that names no known message is
/// kept as `Unknown` with its raw value.
#[derive(Debug, Clone, Copy, PartialEq, Eq, Structural)]
pub enum MsgType {
    Unknown(u8),
    Retry,
    Hint,
    Waiting,
    Start,
    Win,
    UpdateData,
    UpdateCard,
    RequestDeck,
    SelectBattleCmd,
    SelectIdleCmd,
    SelectEffectYN,
    SelectYesNo,
    SelectOption,
    SelectCard,
    SelectChain,
    SelectPlace,
    SelectPosition,
    SelectTribute,
    SortChain,
    SelectCounter,
    SelectSum,
    SelectDisField,
    SortCard,
    SelectUnselectCard,
    ConfirmDeckTop,
    ConfirmCards,
    ShuffleDeck,
    ShuffleHand,
    RefreshDeck,
    SwapGraveDeck,
    ShuffleSetCard,
    ReverseDeck,
    DeckTop,
    NewTurn,
    NewPhase,
    ConfirmExtraTop,
    Move,
    PosChange,
    SetCard,
    Swap,
    FieldDisabled,
    Summoning,
    Summoned,
    SPSummoning,
    SPSummoned,
    FlipSummoning,
    FlipSummoned,
    Chaining,
    Chained,
    ChainSolving,
    ChainSolved,
    ChainEnd,
    ChainNegated,
    ChainDisabled,
    CardSelected,
    RandomSelected,
    BecomeTarget,
    Draw,
    Damage,
    Recover,
    Equip,
    LpUpdate,
    Unequip,
    CardTarget,
    CancelTarget,
    PayLpCost,
    AddCounter,
    RemoveCounter,
    Attack,
    Battle,
    AttackDisabled,
    DamageStepStart,
    DamageStepEnd,
    MissedEffect,
    BeChainTarget,
    CreateRelation,
    ReleaseRelation,
    TossCoin,
    TossDice,
    RockPaperScissors,
    HandRes,
    AnnounceRace,
    AnnounceAttrib,
    AnnounceCard,
    AnnounceNumber,
    CardHint,
    TagSwap,
    ReloadField,
    AiName,
    ShowHint,
    PlayerHint,
    MatchKill,
    CustomMsg,
}

/// The message a tag byte names.
pub open spec fn spec_msg_from(v: u8) -> MsgType {
    match v {
        1u8 => MsgType::Retry,
        2u8 => MsgType::Hint,
        3u8 => MsgType::Waiting,
        4u8 => MsgType::Start,
        5u8 => MsgType::Win,
        6u8 => MsgType::UpdateData,
        7u8 => MsgType::UpdateCard,
        8u8 => MsgType::RequestDeck,
        10u8 => MsgType::SelectBattleCmd,
        11u8 => MsgType::SelectIdleCmd,
        12u8 => MsgType::SelectEffectYN,
        13u8 => MsgType::SelectYesNo,
        14u8 => MsgType::SelectOption,
        15u8 => MsgType::SelectCard,
        16u8 => MsgType::SelectChain,
        18u8 => MsgType::SelectPlace,
        19u8 => MsgType::SelectPosition,
        20u8 => MsgType::SelectTribute,
        21u8 => MsgType::SortChain,
        22u8 => MsgType::SelectCounter,
        23u8 => MsgType::SelectSum,
        24u8 => MsgType::SelectDisField,
        25u8 => MsgType::SortCard,
        26u8 => MsgType::SelectUnselectCard,
        30u8 => MsgType::ConfirmDeckTop,
        31u8 => MsgType::ConfirmCards,
        32u8 => MsgType::ShuffleDeck,
        33u8 => MsgType::ShuffleHand,
        34u8 => MsgType::RefreshDeck,
        35u8 => MsgType::SwapGraveDeck,
        36u8 => MsgType::ShuffleSetCard,
        37u8 => MsgType::ReverseDeck,
        38u8 => MsgType::DeckTop,
        40u8 => MsgType::NewTurn,
        41u8 => MsgType::NewPhase,
        42u8 => MsgType::ConfirmExtraTop,
        50u8 => MsgType::Move,
        53u8 => MsgType::PosChange,
        54u8 => MsgType::SetCard,
        55u8 => MsgType::Swap,
        56u8 => MsgType::FieldDisabled,
        60u8 => MsgType::Summoning,
        61u8 => MsgType::Summoned,
        62u8 => MsgType::SPSummoning,
        63u8 => MsgType::SPSummoned,
        64u8 => MsgType::FlipSummoning,
        65u8 => MsgType::FlipSummoned,
        70u8 => MsgType::Chaining,
        71u8 => MsgType::Chained,
        72u8 => MsgType::ChainSolving,
        73u8 => MsgType::ChainSolved,
        74u8 => MsgType::ChainEnd,
        75u8 => MsgType::ChainNegated,
        76u8 => MsgType::ChainDisabled,
        80u8 => MsgType::CardSelected,
        81u8 => MsgType::RandomSelected,
        83u8 => MsgType::BecomeTarget,
        90u8 => MsgType::Draw,
        91u8 => MsgType::Damage,
        92u8 => MsgType::Recover,
        93u8 => MsgType::Equip,
        94u8 => MsgType::LpUpdate,
        95u8 => MsgType::Unequip,
        96u8 => MsgType::CardTarget,
        97u8 => MsgType::CancelTarget,
        100u8 => MsgType::PayLpCost,
        101u8 => MsgType::AddCounter,
        102u8 => MsgType::RemoveCounter,
        110u8 => MsgType::Attack,
        111u8 => MsgType::Battle,
        112u8 => MsgType::AttackDisabled,
        113u8 => MsgType::DamageStepStart,
        114u8 => MsgType::DamageStepEnd,
        120u8 => MsgType::MissedEffect,
        121u8 => MsgType::BeChainTarget,
        122u8 => MsgType::CreateRelation,
        123u8 => MsgType::ReleaseRelation,
        130u8 => MsgType::TossCoin,
        131u8 => MsgType::TossDice,
        132u8 => MsgType::RockPaperScissors,
        133u8 => MsgType::HandRes,
        140u8 => MsgType::AnnounceRace,
        141u8 => MsgType::AnnounceAttrib,
        142u8 => MsgType::AnnounceCard,
        143u8 => MsgType::AnnounceNumber,
        160u8 => MsgType::CardHint,
        161u8 => MsgType::TagSwap,
        162u8 => MsgType::ReloadField,
        163u8 => MsgType::AiName,
        164u8 => MsgType::ShowHint,
        165u8 => MsgType::PlayerHint,
        170u8 => MsgType::MatchKill,
        180u8 => MsgType::CustomMsg,
        x => MsgType::Unknown(x),
    }
}

/// The tag byte a message carries.
pub open spec fn spec_msg_tag(m: MsgType) -> u8 {
    match m {
        MsgType::Unknown(x) => x,
        MsgType::Retry => 1u8,
        MsgType::Hint => 2u8,
        MsgType::Waiting => 3u8,
        MsgType::Start => 4u8,
        MsgType::Win => 5u8,
        MsgType::UpdateData => 6u8,
        MsgType::UpdateCard => 7u8,
        MsgType::RequestDeck => 8u8,
        MsgType::SelectBattleCmd => 10u8,
        MsgType::SelectIdleCmd => 11u8,
        MsgType::SelectEffectYN => 12u8,
        MsgType::SelectYesNo => 13u8,
        MsgType::SelectOption => 14u8,
        MsgType::SelectCard => 15u8,
        MsgType::SelectChain => 16u8,
        MsgType::SelectPlace => 18u8,
        MsgType::SelectPosition => 19u8,
        MsgType::SelectTribute => 20u8,
        MsgType::SortChain => 21u8,
        MsgType::SelectCounter => 22u8,
        MsgType::SelectSum => 23u8,
        MsgType::SelectDisField => 24u8,
        MsgType::SortCard => 25u8,
        MsgType::SelectUnselectCard => 26u8,
        MsgType::ConfirmDeckTop => 30u8,
        MsgType::ConfirmCards => 31u8,
        MsgType::ShuffleDeck => 32u8,
        MsgType::ShuffleHand => 33u8,
        MsgType::RefreshDeck => 34u8,
        MsgType::SwapGraveDeck => 35u8,
        MsgType::ShuffleSetCard => 36u8,
        MsgType::ReverseDeck => 37u8,
        MsgType::DeckTop => 38u8,
        MsgType::NewTurn => 40u8,
        MsgType::NewPhase => 41u8,
        MsgType::ConfirmExtraTop => 42u8,
        MsgType::Move => 50u8,
        MsgType::PosChange => 53u8,
        MsgType::SetCard => 54u8,
        MsgType::Swap => 55u8,
        MsgType::FieldDisabled => 56u8,
        MsgType::Summoning => 60u8,
        MsgType::Summoned => 61u8,
        MsgType::SPSummoning => 62u8,
        MsgType::SPSummoned => 63u8,
        MsgType::FlipSummoning => 64u8,
        MsgType::FlipSummoned => 65u8,
        MsgType::Chaining => 70u8,
        MsgType::Chained => 71u8,
        MsgType::ChainSolving => 72u8,
        MsgType::ChainSolved => 73u8,
        MsgType::ChainEnd => 74u8,
        MsgType::ChainNegated => 75u8,
        MsgType::ChainDisabled => 76u8,
        MsgType::CardSelected => 80u8,
        MsgType::RandomSelected => 81u8,
        MsgType::BecomeTarget => 83u8,
        MsgType::Draw => 90u8,
        MsgType::Damage => 91u8,
        MsgType::Recover => 92u8,
        MsgType::Equip => 93u8,
        MsgType::LpUpdate => 94u8,
        MsgType::Unequip => 95u8,
        MsgType::CardTarget => 96u8,
        MsgType::CancelTarget => 97u8,
        MsgType::PayLpCost => 100u8,
        MsgType::AddCounter => 101u8,
        MsgType::RemoveCounter => 102u8,
        MsgType::Attack => 110u8,
        MsgType::Battle => 111u8,
        MsgType::AttackDisabled => 112u8,
        MsgType::DamageStepStart => 113u8,
        MsgType::DamageStepEnd => 114u8,
        MsgType::MissedEffect => 120u8,
        MsgType::BeChainTarget => 121u8,
        MsgType::CreateRelation => 122u8,
        MsgType::ReleaseRelation => 123u8,
        MsgType::TossCoin => 130u8,
        MsgType::TossDice => 131u8,
        MsgType::RockPaperScissors => 132u8,
        MsgType::HandRes => 133u8,
        MsgType::AnnounceRace => 140u8,
        MsgType::AnnounceAttrib => 141u8,
        MsgType::AnnounceCard => 142u8,
        MsgType::AnnounceNumber => 143u8,
        MsgType::CardHint => 160u8,
        MsgType::TagSwap => 161u8,
        MsgType::ReloadField => 162u8,
        MsgType::AiName => 163u8,
        MsgType::ShowHint => 164u8,
        MsgType::PlayerHint => 165u8,
        MsgType::MatchKill => 170u8,
        MsgType::CustomMsg => 180u8,
    }
}

impl From<u8> for MsgType {
    fn from(v: u8) -> (r: Self)
        ensures
            r == spec_msg_from(v),
    {
        match v {
            1 => MsgType::Retry,
            2 => MsgType::Hint,
            3 => MsgType::Waiting,
            4 => MsgType::Start,
            5 => MsgType::Win,
            6 => MsgType::UpdateData,
            7 => MsgType::UpdateCard,
            8 => MsgType::RequestDeck,
            10 => MsgType::SelectBattleCmd,
            11 => MsgType::SelectIdleCmd,
            12 => MsgType::SelectEffectYN,
            13 => MsgType::SelectYesNo,
            14 => MsgType::SelectOption,
            15 => MsgType::SelectCard,
            16 => MsgType::SelectChain,
            18 => MsgType::SelectPlace,
            19 => MsgType::SelectPosition,
            20 => MsgType::SelectTribute,
            21 => MsgType::SortChain,
            22 => MsgType::SelectCounter,
            23 => MsgType::SelectSum,
            24 => MsgType::SelectDisField,
            25 => MsgType::SortCard,
            26 => MsgType::SelectUnselectCard,
            30 => MsgType::ConfirmDeckTop,
            31 => MsgType::ConfirmCards,
            32 => MsgType::ShuffleDeck,
            33 => MsgType::ShuffleHand,
            34 => MsgType::RefreshDeck,
            35 => MsgType::SwapGraveDeck,
            36 => MsgType::ShuffleSetCard,
            37 => MsgType::ReverseDeck,
            38 => MsgType::DeckTop,
            40 => MsgType::NewTurn,
            41 => MsgType::NewPhase,
            42 => MsgType::ConfirmExtraTop,
            50 => MsgType::Move,
            53 => MsgType::PosChange,
            54 => MsgType::SetCard,
            55 => MsgType::Swap,
            56 => MsgType::FieldDisabled,
            60 => MsgType::Summoning,
            61 => MsgType::Summoned,
            62 => MsgType::SPSummoning,
            63 => MsgType::SPSummoned,
            64 => MsgType::FlipSummoning,
            65 => MsgType::FlipSummoned,
            70 => MsgType::Chaining,
            71 => MsgType::Chained,
            72 => MsgType::ChainSolving,
            73 => MsgType::ChainSolved,
            74 => MsgType::ChainEnd,
            75 => MsgType::ChainNegated,
            76 => MsgType::ChainDisabled,
            80 => MsgType::CardSelected,
            81 => MsgType::RandomSelected,
            83 => MsgType::BecomeTarget,
            90 => MsgType::Draw,
            91 => MsgType::Damage,
            92 => MsgType::Recover,
            93 => MsgType::Equip,
            94 => MsgType::LpUpdate,
            95 => MsgType::Unequip,
            96 => MsgType::CardTarget,
            97 => MsgType::CancelTarget,
            100 => MsgType::PayLpCost,
            101 => MsgType::AddCounter,
            102 => MsgType::RemoveCounter,
            110 => MsgType::Attack,
            111 => MsgType::Battle,
            112 => MsgType::AttackDisabled,
            113 => MsgType::DamageStepStart,
            114 => MsgType::DamageStepEnd,
            120 => MsgType::MissedEffect,
            121 => MsgType::BeChainTarget,
            122 => MsgType::CreateRelation,
            123 => MsgType::ReleaseRelation,
            130 => MsgType::TossCoin,
            131 => MsgType::TossDice,
            132 => MsgType::RockPaperScissors,
            133 => MsgType::HandRes,
            140 => MsgType::AnnounceRace,
            141 => MsgType::AnnounceAttrib,
            142 => MsgType::AnnounceCard,
            143 => MsgType::AnnounceNumber,
            160 => MsgType::CardHint,
            161 => MsgType::TagSwap,
            162 => MsgType::ReloadField,
            163 => MsgType::AiName,
            164 => MsgType::ShowHint,
            165 => MsgType::PlayerHint,
            170 => MsgType::MatchKill,
            180 => MsgType::CustomMsg,
            x => MsgType::Unknown(x),
        }
    }
}

impl vstd::std_specs::convert::FromSpecImpl<u8> for MsgType {
    open spec fn obeys_from_spec() -> bool {
        true
    }

    open spec fn from_spec(v: u8) -> MsgType {
        spec_msg_from(v)
    }
}

impl MsgType {
    /// The tag byte of this message.
    pub fn tag(self) -> (r: u8)
        ensures
            r == spec_msg_tag(self),
    {
        match self {
            MsgType::Unknown(x) => x,
            MsgType::Retry => 1,
            MsgType::Hint => 2,
            MsgType::Waiting => 3,
            MsgType::Start => 4,
            MsgType::Win => 5,
            MsgType::UpdateData => 6,
            MsgType::UpdateCard => 7,
            MsgType::RequestDeck => 8,
            MsgType::SelectBattleCmd => 10,
            MsgType::SelectIdleCmd => 11,
            MsgType::SelectEffectYN => 12,
            MsgType::SelectYesNo => 13,
            MsgType::SelectOption => 14,
            MsgType::SelectCard => 15,
            MsgType::SelectChain => 16,
            MsgType::SelectPlace => 18,
            MsgType::SelectPosition => 19,
            MsgType::SelectTribute => 20,
            MsgType::SortChain => 21,
            MsgType::SelectCounter => 22,
            MsgType::SelectSum => 23,
            MsgType::SelectDisField => 24,
            MsgType::SortCard => 25,
            MsgType::SelectUnselectCard => 26,
            MsgType::ConfirmDeckTop => 30,
            MsgType::ConfirmCards => 31,
            MsgType::ShuffleDeck => 32,
            MsgType::ShuffleHand => 33,
            MsgType::RefreshDeck => 34,
            MsgType::SwapGraveDeck => 35,
            MsgType::ShuffleSetCard => 36,
            MsgType::ReverseDeck => 37,
            MsgType::DeckTop => 38,
            MsgType::NewTurn => 40,
            MsgType::NewPhase => 41,
            MsgType::ConfirmExtraTop => 42,
            MsgType::Move => 50,
            MsgType::PosChange => 53,
            MsgType::SetCard => 54,
            MsgType::Swap => 55,
            MsgType::FieldDisabled => 56,
            MsgType::Summoning => 60,
            MsgType::Summoned => 61,
            MsgType::SPSummoning => 62,
            MsgType::SPSummoned => 63,
            MsgType::FlipSummoning => 64,
            MsgType::FlipSummoned => 65,
            MsgType::Chaining => 70,
            MsgType::Chained => 71,
            MsgType::ChainSolving => 72,
            MsgType::ChainSolved => 73,
            MsgType::ChainEnd => 74,
            MsgType::ChainNegated => 75,
            MsgType::ChainDisabled => 76,
            MsgType::CardSelected => 80,
            MsgType::RandomSelected => 81,
            MsgType::BecomeTarget => 83,
            MsgType::Draw => 90,
            MsgType::Damage => 91,
            MsgType::Recover => 92,
            MsgType::Equip => 93,
            MsgType::LpUpdate => 94,
            MsgType::Unequip => 95,
            MsgType::CardTarget => 96,
            MsgType::CancelTarget => 97,
            MsgType::PayLpCost => 100,
            MsgType::AddCounter => 101,
            MsgType::RemoveCounter => 102,
            MsgType::Attack => 110,
            MsgType::Battle => 111,
            MsgType::AttackDisabled => 112,
            MsgType::DamageStepStart => 113,
            MsgType::DamageStepEnd => 114,
            MsgType::MissedEffect => 120,
            MsgType::BeChainTarget => 121,
            MsgType::CreateRelation => 122,
            MsgType::ReleaseRelation => 123,
            MsgType::TossCoin => 130,
            MsgType::TossDice => 131,
            MsgType::RockPaperScissors => 132,
            MsgType::HandRes => 133,
            MsgType::AnnounceRace => 140,
            MsgType::AnnounceAttrib => 141,
            MsgType::AnnounceCard => 142,
            MsgType::AnnounceNumber => 143,
            MsgType::CardHint => 160,
            MsgType::TagSwap => 161,
            MsgType::ReloadField => 162,
            MsgType::AiName => 163,
            MsgType::ShowHint => 164,
            MsgType::PlayerHint => 165,
            MsgType::MatchKill => 170,
            MsgType::CustomMsg => 180,
        }
    }
}

/// Decoding a tag byte and re-encoding it gives the byte back, for every
/// byte: the tag table is a bijection up to unknown tags.
pub proof fn lemma_tag_round_trip(t: u8)
    ensures
        spec_msg_tag(spec_msg_from(t)) == t,
{
}

/// Encoding a known message tag and decoding it gives the message back.
pub proof fn lemma_msg_type_round_trip(m: MsgType)
    requires
        !(m is Unknown),
    ensures
        spec_msg_from(spec_msg_tag(m)) == m,
{
}

/// Parse a packet: the first byte is the tag, the rest the payload.
pub fn parse_packet(data: &[u8]) -> (r: (MsgType, Vec<u8>))
    ensures
        data@.len() == 0 ==> r.0 == MsgType::Unknown(0u8) && r.1@ == data@,
        data@.len() > 0 ==> r.0 == spec_msg_from(data@[0]) && r.1@ == data@.skip(1),
{
    if data.len() == 0 {
        return (MsgType::Unknown(0), slice_to_vec(data));
    }
    let id = *vstd::slice::slice_index_get(data, 0);
    let payload = slice_to_vec(slice_subrange(data, 1, data.len()));
    proof {
        assert(data@.subrange(1, data@.len() as int) =~= data@.skip(1));
    }
    (MsgType::from(id), payload)
}

/// Parse a packet that may be wrapped in a server-to-client container byte
/// (value 1): the container byte is peeled and the real tag is the second
/// byte.
pub fn parse_replay_packet(data: &[u8]) -> (r: (Option<u8>, MsgType, Vec<u8>))
    ensures
        data@.len() == 0 ==> r.0 is None && r.1 == MsgType::Unknown(0u8) && r.2@ == data@,
        data@.len() > 0 && data@[0] == 1 && data@.len() >= 2 ==> r.0 == Some(1u8) && r.1
            == spec_msg_from(data@[1]) && r.2@ == data@.skip(2),
        data@.len() == 1 && data@[0] == 1 ==> r.0 == Some(1u8) && r.1 == MsgType::Unknown(0u8)
            && r.2@ == data@.skip(1),
        data@.len() > 0 && data@[0] != 1 ==> r.0 is None && r.1 == spec_msg_from(data@[0])
            && r.2@ == data@.skip(1),
{
    if data.len() == 0 {
        return (None, MsgType::Unknown(0), slice_to_vec(data));
    }
    let container_id = *vstd::slice::slice_index_get(data, 0);
    if container_id == 1 {
        if data.len() >= 2 {
            let msg_id = *vstd::slice::slice_index_get(data, 1);
            let payload = slice_to_vec(slice_subrange(data, 2, data.len()));
            proof {
                assert(data@.subrange(2, data@.len() as int) =~= data@.skip(2));
            }
            (Some(container_id), MsgType::from(msg_id), payload)
        } else {
            let payload = slice_to_vec(slice_subrange(data, 1, data.len()));
            proof {
                assert(data@.subrange(1, data@.len() as int) =~= data@.skip(1));
            }
            (Some(container_id), MsgType::Unknown(0), payload)
        }
    } else {
        let payload = slice_to_vec(slice_subrange(data, 1, data.len()));
        proof {
            assert(data@.subrange(1, data@.len() as int) =~= data@.skip(1));
        }
        (None, MsgType::from(container_id), payload)
    }
}

/// A u8 read at `off`.
pub open spec fn spec_u8_at(p: Seq<u8>, off: int) -> u8 {
    p[off]
}

/// A little-endian u16 read at `off`.
pub open spec fn spec_u16_at(p: Seq<u8>, off: int) -> u16 {
    spec_u16_from_le_bytes(p.subrange(off, off + 2))
}

/// A little-endian u32 read at `off`.
pub open spec fn spec_u32_at(p: Seq<u8>, off: int) -> u32 {
    spec_u32_from_le_bytes(p.subrange(off, off + 4))
}

/// A little-endian i32 read at `off`.
pub open spec fn spec_i32_at(p: Seq<u8>, off: int) -> i32 {
    spec_u32_at(p, off) as i32
}

/// Read a little-endian u16 at `off`.
pub(crate) fn get_u16(p: &[u8], off: usize) -> (r: u16)
    requires
        off + 2 <= p@.len(),
    ensures
        r == spec_u16_at(p@, off as int),
{
    let _n = p.len();
    u16_from_le_bytes(slice_subrange(p, off, off + 2))
}

/// Read a little-endian u32 at `off`.
pub(crate) fn get_u32(p: &[u8], off: usize) -> (r: u32)
    requires
        off + 4 <= p@.len(),
    ensures
        r == spec_u32_at(p@, off as int),
{
    let _n = p.len();
    u32_from_le_bytes(slice_subrange(p, off, off + 4))
}

/// Read a little-endian i32 at `off`.
pub(crate) fn get_i32(p: &[u8], off: usize) -> (r: i32)
    requires
        off + 4 <= p@.len(),
    ensures
        r == spec_i32_at(p@, off as int),
{
    let _n = p.len();
    let w = u32_from_le_bytes(slice_subrange(p, off, off + 4));
    #[verifier::truncate] (w as i32)
}

/// Read a u8 at `off`.
pub(crate) fn get_u8(p: &[u8], off: usize) -> (r: u8)
    requires
        off < p@.len(),
    ensures
        r == spec_u8_at(p@, off as int),
{
    *vstd::slice::slice_index_get(p, off)
}

/// Append a little-endian u16.
fn put_u16(out: &mut Vec<u8>, x: u16)
    ensures
        final(out)@ == old(out)@ + spec_u16_to_le_bytes(x),
{
    let mut b = u16_to_le_bytes(x);
    out.append(&mut b);
}

/// Append a little-endian u32.
fn put_u32(out: &mut Vec<u8>, x: u32)
    ensures
        final(out)@ == old(out)@ + spec_u32_to_le_bytes(x),
{
    let mut b = u32_to_le_bytes(x);
    out.append(&mut b);
}

/// Append a little-endian i32 (the two's-complement bits of the value).
fn put_i32(out: &mut Vec<u8>, x: i32)
    ensures
        final(out)@ == old(out)@ + spec_u32_to_le_bytes(x as u32),
{
    let w = #[verifier::truncate] (x as u32);
    let mut b = u32_to_le_bytes(w);
    out.append(&mut b);
}

/// Casting an i32 to u32 and back, or a u32 to i32 and back, restores the
/// value: both are the same 32 bits.
pub proof fn lemma_i32_u32_casts()
    ensures
        forall|x: i32| #[trigger] ((x as u32) as i32) == x,
        forall|x: u32| #[trigger] ((x as i32) as u32) == x,
{
    assert(forall|x: i32| #[trigger] ((x as u32) as i32) == x) by (bit_vector);
    assert(forall|x: u32| #[trigger] ((x as i32) as u32) == x) by (bit_vector);
}

/// The retry notice; it carries no payload.
#[derive(Debug, Clone, Copy, PartialEq, Eq, Structural)]
pub struct MsgRetry;

/// What parsing a payload as this message yields.
pub open spec fn spec_parse_retry(p: Seq<u8>) -> Option<MsgRetry> {
    Some(MsgRetry)
}

/// The canonical payload of this message.
pub open spec fn spec_encode_retry(m: MsgRetry) -> Seq<u8> {
    Seq::empty()
}

impl MsgRetry {
    /// Parse a payload as this message.
    pub fn parse(payload: &[u8]) -> (r: Option<MsgRetry>)
        ensures
            r == spec_parse_retry(payload@),
    {
        let _ = payload;
        Some(MsgRetry)
    }

    /// The canonical payload of this message.
    pub fn encode(&self) -> (r: Vec<u8>)
        ensures
            r@ == spec_encode_retry(*self),
    {
        let r: Vec<u8> = Vec::new();
        proof {
            assert(r@ =~= spec_encode_retry(*self));
        }
        r
    }
}

/// Decoding the canonical payload of this message gives the message back.
pub proof fn lemma_retry_round_trip(m: MsgRetry)
    ensures
        spec_parse_retry(spec_encode_retry(m)) == Some(m),
{
    
}

/// The waiting notice; it carries no payload.
#[derive(Debug, Clone, Copy, PartialEq, Eq, Structural)]
pub struct MsgWaiting;

/// What parsing a payload as this message yields.
pub open spec fn spec_parse_waiting(p: Seq<u8>) -> Option<MsgWaiting> {
    Some(MsgWaiting)
}

/// The canonical payload of this message.
pub open spec fn spec_encode_waiting(m: MsgWaiting) -> Seq<u8> {
    Seq::empty()
}

impl MsgWaiting {
    /// Parse a payload as this message.
    pub fn parse(payload: &[u8]) -> (r: Option<MsgWaiting>)
        ensures
            r == spec_parse_waiting(payload@),
    {
        let _ = payload;
        Some(MsgWaiting)
    }

    /// The canonical payload of this message.
    pub fn encode(&self) -> (r: Vec<u8>)
        ensures
            r@ == spec_encode_waiting(*self),
    {
        let r: Vec<u8> = Vec::new();
        proof {
            assert(r@ =~= spec_encode_waiting(*self));
        }
        r
    }
}

/// Decoding the canonical payload of this message gives the message back.
pub proof fn lemma_waiting_round_trip(m: MsgWaiting)
    ensures
        spec_parse_waiting(spec_encode_waiting(m)) == Some(m),
{
    
}

/// The deck request; it carries no payload.
#[derive(Debug, Clone, Copy, PartialEq, Eq, Structural)]
pub struct MsgRequestDeck;

/// What parsing a payload as this message yields.
pub open spec fn spec_parse_request_deck(p: Seq<u8>) -> Option<MsgRequestDeck> {
    Some(MsgRequestDeck)
}

/// The canonical payload of this message.
pub open spec fn spec_encode_request_deck(m: MsgRequestDeck) -> Seq<u8> {
    Seq::empty()
}

impl MsgRequestDeck {
    /// Parse a payload as this message.
    pub fn parse(payload: &[u8]) -> (r: Option<MsgRequestDeck>)
        ensures
            r == spec_parse_request_deck(payload@),
    {
        let _ = payload;
        Some(MsgRequestDeck)
    }

    /// The canonical payload of this message.
    pub fn encode(&self) -> (r: Vec<u8>)
        ensures
            r@ == spec_encode_request_deck(*self),
    {
        let r: Vec<u8> = Vec::new();
        proof {
            assert(r@ =~= spec_encode_request_deck(*self));
        }
        r
    }
}

/// Decoding the canonical payload of this message gives the message back.
pub proof fn lemma_request_deck_round_trip(m: MsgRequestDeck)
    ensures
        spec_parse_request_deck(spec_encode_request_deck(m)) == Some(m),
{
    
}

/// The deck refresh notice; it carries no payload.
#[derive(Debug, Clone, Copy, PartialEq, Eq, Structural)]
pub struct MsgRefreshDeck;

/// What parsing a payload as this message yields.
pub open spec fn spec_parse_refresh_deck(p: Seq<u8>) -> Option<MsgRefreshDeck> {
    Some(MsgRefreshDeck)
}

/// The canonical payload of this message.
pub open spec fn spec_encode_refresh_deck(m: MsgRefreshDeck) -> Seq<u8> {
    Seq::empty()
}

impl MsgRefreshDeck {
    /// Parse a payload as this message.
    pub fn parse(payload: &[u8]) -> (r: Option<MsgRefreshDeck>)
        ensures
            r == spec_parse_refresh_deck(payload@),
    {
        let _ = payload;
        Some(MsgRefreshDeck)
    }

    /// The canonical payload of this message.
    pub fn encode(&self) -> (r: Vec<u8>)
        ensures
            r@ == spec_encode_refresh_deck(*self),
    {
        let r: Vec<u8> = Vec::new();
        proof {
            assert(r@ =~= spec_encode_refresh_deck(*self));
        }
        r
    }
}

/// Decoding the canonical payload of this message gives the message back.
pub proof fn lemma_refresh_deck_round_trip(m: MsgRefreshDeck)
    ensures
        spec_parse_refresh_deck(spec_encode_refresh_deck(m)) == Some(m),
{
    
}

/// A new turn for the given player.
#[derive(Debug, Clone, Copy, PartialEq, Eq, Structural)]
pub struct MsgNewTurn {
    pub player: u8,
}

/// What parsing a payload as this message yields.
pub open spec fn spec_parse_new_turn(p: Seq<u8>) -> Option<MsgNewTurn> {
    if p.len() >= 1 {
        Some(MsgNewTurn { player: spec_u8_at(p, 0) })
    } else {
        None
    }
}

/// The canonical payload of this message.
pub open spec fn spec_encode_new_turn(m: MsgNewTurn) -> Seq<u8> {
    seq![m.player]
}

impl MsgNewTurn {
    /// Parse a payload as this message; trailing bytes are ignored.
    pub fn parse(payload: &[u8]) -> (r: Option<MsgNewTurn>)
        ensures
            r == spec_parse_new_turn(payload@),
    {
        if payload.len() >= 1 {
            Some(MsgNewTurn {
                player: get_u8(payload, 0),
            })
        } else {
            None
        }
    }

    /// The canonical payload of this message.
    pub fn encode(&self) -> (r: Vec<u8>)
        ensures
            r@ == spec_encode_new_turn(*self),
    {
        let mut out: Vec<u8> = Vec::new();
        out.push(self.player);
        proof {
            assert(out@ =~= spec_encode_new_turn(*self));
        }
        out
    }
}

/// Decoding the canonical payload of this message gives the message back.
pub proof fn lemma_new_turn_round_trip(m: MsgNewTurn)
    ensures
        spec_parse_new_turn(spec_encode_new_turn(m)) == Some(m),
{
    
}

/// A draw: which player drew and how many cards.
#[derive(Debug, Clone, Copy, PartialEq, Eq, Structural)]
pub struct MsgDraw {
    pub player: u8,
    pub count: u8,
}

/// What parsing a payload as this message yields.
pub open spec fn spec_parse_draw_msg(p: Seq<u8>) -> Option<MsgDraw> {
    if p.len() >= 2 {
        Some(MsgDraw { player: spec_u8_at(p, 0), count: spec_u8_at(p, 1) })
    } else {
        None
    }
}

/// The canonical payload of this message.
pub open spec fn spec_encode_draw_msg(m: MsgDraw) -> Seq<u8> {
    seq![m.player] + seq![m.count]
}

impl MsgDraw {
    /// Parse a payload as this message; trailing bytes are ignored.
    pub fn parse(payload: &[u8]) -> (r: Option<MsgDraw>)
        ensures
            r == spec_parse_draw_msg(payload@),
    {
        if payload.len() >= 2 {
            Some(MsgDraw {
                player: get_u8(payload, 0),
                count: get_u8(payload, 1),
            })
        } else {
            None
        }
    }

    /// The canonical payload of this message.
    pub fn encode(&self) -> (r: Vec<u8>)
        ensures
            r@ == spec_encode_draw_msg(*self),
    {
        let mut out: Vec<u8> = Vec::new();
        out.push(self.player);
        out.push(self.count);
        proof {
            assert(out@ =~= spec_encode_draw_msg(*self));
        }
        out
    }
}

/// Decoding the canonical payload of this message gives the message back.
pub proof fn lemma_draw_msg_round_trip(m: MsgDraw)
    ensures
        spec_parse_draw_msg(spec_encode_draw_msg(m)) == Some(m),
{
    
}

/// The duel result: the winner and the reason.
#[derive(Debug, Clone, Copy, PartialEq, Eq, Structural)]
pub struct MsgWin {
    pub player: u8,
    pub reason: u8,
}

/// What parsing a payload as this message yields.
pub open spec fn spec_parse_win(p: Seq<u8>) -> Option<MsgWin> {
    if p.len() >= 2 {
        Some(MsgWin { player: spec_u8_at(p, 0), reason: spec_u8_at(p, 1) })
    } else {
        None
    }
}

/// The canonical payload of this message.
pub open spec fn spec_encode_win(m: MsgWin) -> Seq<u8> {
    seq![m.player] + seq![m.reason]
}

impl MsgWin {
    /// Parse a payload as this message; trailing bytes are ignored.
    pub fn parse(payload: &[u8]) -> (r: Option<MsgWin>)
        ensures
            r == spec_parse_win(payload@),
    {
        if payload.len() >= 2 {
            Some(MsgWin {
                player: get_u8(payload, 0),
                reason: get_u8(payload, 1),
            })
        } else {
            None
        }
    }

    /// The canonical payload of this message.
    pub fn encode(&self) -> (r: Vec<u8>)
        ensures
            r@ == spec_encode_win(*self),
    {
        let mut out: Vec<u8> = Vec::new();
        out.push(self.player);
        out.push(self.reason);
        proof {
            assert(out@ =~= spec_encode_win(*self));
        }
        out
    }
}

/// Decoding the canonical payload of this message gives the message back.
pub proof fn lemma_win_round_trip(m: MsgWin)
    ensures
        spec_parse_win(spec_encode_win(m)) == Some(m),
{
    
}

/// A bulk data update notice.
#[derive(Debug, Clone, Copy, PartialEq, Eq, Structural)]
pub struct MsgUpdateData {
    pub flag: u8,
}

/// What parsing a payload as this message yields.
pub open spec fn spec_parse_update_data(p: Seq<u8>) -> Option<MsgUpdateData> {
    if p.len() >= 1 {
        Some(MsgUpdateData { flag: spec_u8_at(p, 0) })
    } else {
        None
    }
}

/// The canonical payload of this message.
pub open spec fn spec_encode_update_data(m: MsgUpdateData) -> Seq<u8> {
    seq![m.flag]
}

impl MsgUpdateData {
    /// Parse a payload as this message; trailing bytes are ignored.
    pub fn parse(payload: &[u8]) -> (r: Option<MsgUpdateData>)
        ensures
            r == spec_parse_update_data(payload@),
    {
        if payload.len() >= 1 {
            Some(MsgUpdateData {
                flag: get_u8(payload, 0),
            })
        } else {
            None
        }
    }

    /// The canonical payload of this message.
    pub fn encode(&self) -> (r: Vec<u8>)
        ensures
            r@ == spec_encode_update_data(*self),
    {
        let mut out: Vec<u8> = Vec::new();
        out.push(self.flag);
        proof {
            assert(out@ =~= spec_encode_update_data(*self));
        }
        out
    }
}

/// Decoding the canonical payload of this message gives the message back.
pub proof fn lemma_update_data_round_trip(m: MsgUpdateData)
    ensures
        spec_parse_update_data(spec_encode_update_data(m)) == Some(m),
{
    
}

/// A single-card update notice.
#[derive(Debug, Clone, Copy, PartialEq, Eq, Structural)]
pub struct MsgUpdateCard {
    pub flag: u8,
    pub code: u32,
}

/// What parsing a payload as this message yields.
pub open spec fn spec_parse_update_card(p: Seq<u8>) -> Option<MsgUpdateCard> {
    if p.len() >= 5 {
        Some(MsgUpdateCard { flag: spec_u8_at(p, 0), code: spec_u32_at(p, 1) })
    } else {
        None
    }
}

/// The canonical payload of this message.
pub open spec fn spec_encode_update_card(m: MsgUpdateCard) -> Seq<u8> {
    seq![m.flag] + spec_u32_to_le_bytes(m.code)
}

impl MsgUpdateCard {
    /// Parse a payload as this message; trailing bytes are ignored.
    pub fn parse(payload: &[u8]) -> (r: Option<MsgUpdateCard>)
        ensures
            r == spec_parse_update_card(payload@),
    {
        if payload.len() >= 5 {
            Some(MsgUpdateCard {
                flag: get_u8(payload, 0),
                code: get_u32(payload, 1),
            })
        } else {
            None
        }
    }

    /// The canonical payload of this message.
    pub fn encode(&self) -> (r: Vec<u8>)
        ensures
            r@ == spec_encode_update_card(*self),
    {
        let mut out: Vec<u8> = Vec::new();
        out.push(self.flag);
        put_u32(&mut out, self.code);
        proof {
            assert(out@ =~= spec_encode_update_card(*self));
        }
        out
    }
}

/// Decoding the canonical payload of this message gives the message back.
pub proof fn lemma_update_card_round_trip(m: MsgUpdateCard)
    ensures
        spec_parse_update_card(spec_encode_update_card(m)) == Some(m),
{
    lemma_auto_spec_u32_to_from_le_bytes();
    let enc = spec_encode_update_card(m);
    assert(enc.subrange(1, 5) =~= spec_u32_to_le_bytes(m.code));
}

/// A life-point update.
#[derive(Debug, Clone, Copy, PartialEq, Eq, Structural)]
pub struct MsgLpUpdate {
    pub player: u8,
    pub lp: u32,
}

/// What parsing a payload as this message yields.
pub open spec fn spec_parse_lp_update(p: Seq<u8>) -> Option<MsgLpUpdate> {
    if p.len() >= 5 {
        Some(MsgLpUpdate { player: spec_u8_at(p, 0), lp: spec_u32_at(p, 1) })
    } else {
        None
    }
}

/// The canonical payload of this message.
pub open spec fn spec_encode_lp_update(m: MsgLpUpdate) -> Seq<u8> {
    seq![m.player] + spec_u32_to_le_bytes(m.lp)
}

impl MsgLpUpdate {
    /// Parse a payload as this message; trailing bytes are ignored.
    pub fn parse(payload: &[u8]) -> (r: Option<MsgLpUpdate>)
        ensures
            r == spec_parse_lp_update(payload@),
    {
        if payload.len() >= 5 {
            Some(MsgLpUpdate {
                player: get_u8(payload, 0),
                lp: get_u32(payload, 1),
            })
        } else {
            None
        }
    }

    /// The canonical payload of this message.
    pub fn encode(&self) -> (r: Vec<u8>)
        ensures
            r@ == spec_encode_lp_update(*self),
    {
        let mut out: Vec<u8> = Vec::new();
        out.push(self.player);
        put_u32(&mut out, self.lp);
        proof {
            assert(out@ =~= spec_encode_lp_update(*self));
        }
        out
    }
}

/// Decoding the canonical payload of this message gives the message back.
pub proof fn lemma_lp_update_round_trip(m: MsgLpUpdate)
    ensures
        spec_parse_lp_update(spec_encode_lp_update(m)) == Some(m),
{
    lemma_auto_spec_u32_to_from_le_bytes();
    let enc = spec_encode_lp_update(m);
    assert(enc.subrange(1, 5) =~= spec_u32_to_le_bytes(m.lp));
}

/// A hint for a player.
#[derive(Debug, Clone, Copy, PartialEq, Eq)]
pub struct MsgHint {
    pub hint_type: u8,
    pub player: u8,
    pub data: i32,
}

/// What parsing a payload as this message yields.
pub open spec fn spec_parse_hint(p: Seq<u8>) -> Option<MsgHint> {
    if p.len() >= 6 {
        Some(MsgHint { hint_type: spec_u8_at(p, 0), player: spec_u8_at(p, 1), data: spec_i32_at(p, 2) })
    } else {
        None
    }
}

/// The canonical payload of this message.
pub open spec fn spec_encode_hint(m: MsgHint) -> Seq<u8> {
    seq![m.hint_type] + seq![m.player] + spec_u32_to_le_bytes(m.data as u32)
}

impl MsgHint {
    /// Parse a payload as this message; trailing bytes are ignored.
    pub fn parse(payload: &[u8]) -> (r: Option<MsgHint>)
        ensures
            r == spec_parse_hint(payload@),
    {
        if payload.len() >= 6 {
            Some(MsgHint {
                hint_type: get_u8(payload, 0),
                player: get_u8(payload, 1),
                data: get_i32(payload, 2),
            })
        } else {
            None
        }
    }

    /// The canonical payload of this message.
    pub fn encode(&self) -> (r: Vec<u8>)
        ensures
            r@ == spec_encode_hint(*self),
    {
        let mut out: Vec<u8> = Vec::new();
        out.push(self.hint_type);
        out.push(self.player);
        put_i32(&mut out, self.data);
        proof {
            assert(out@ =~= spec_encode_hint(*self));
        }
        out
    }
}

/// Decoding the canonical payload of this message gives the message back.
pub proof fn lemma_hint_round_trip(m: MsgHint)
    ensures
        spec_parse_hint(spec_encode_hint(m)) == Some(m),
{
    lemma_auto_spec_u32_to_from_le_bytes();
    lemma_i32_u32_casts();
    let enc = spec_encode_hint(m);
    assert(enc.subrange(2, 6) =~= spec_u32_to_le_bytes(m.data as u32));
}

/// A card movement: the card code, where it came from, where it went, and the reason.
#[derive(Debug, Clone, Copy, PartialEq, Eq)]
pub struct MsgMove {
    pub code: u32,
    pub from_player: u8,
    pub from_loc: u8,
    pub from_seq: u8,
    pub from_pos: u8,
    pub to_player: u8,
    pub to_loc: u8,
    pub to_seq: u8,
    pub to_pos: u8,
    pub reason: i32,
}

/// What parsing a payload as this message yields.
pub open spec fn spec_parse_move_msg(p: Seq<u8>) -> Option<MsgMove> {
    if p.len() >= 16 {
        Some(MsgMove { code: spec_u32_at(p, 0), from_player: spec_u8_at(p, 4), from_loc: spec_u8_at(p, 5), from_seq: spec_u8_at(p, 6), from_pos: spec_u8_at(p, 7), to_player: spec_u8_at(p, 8), to_loc: spec_u8_at(p, 9), to_seq: spec_u8_at(p, 10), to_pos: spec_u8_at(p, 11), reason: spec_i32_at(p, 12) })
    } else {
        None
    }
}

/// The canonical payload of this message.
pub open spec fn spec_encode_move_msg(m: MsgMove) -> Seq<u8> {
    spec_u32_to_le_bytes(m.code) + seq![m.from_player] + seq![m.from_loc] + seq![m.from_seq] + seq![m.from_pos] + seq![m.to_player] + seq![m.to_loc] + seq![m.to_seq] + seq![m.to_pos] + spec_u32_to_le_bytes(m.reason as u32)
}

impl MsgMove {
    /// Parse a payload as this message; trailing bytes are ignored.
    pub fn parse(payload: &[u8]) -> (r: Option<MsgMove>)
        ensures
            r == spec_parse_move_msg(payload@),
    {
        if payload.len() >= 16 {
            Some(MsgMove {
                code: get_u32(payload, 0),
                from_player: get_u8(payload, 4),
                from_loc: get_u8(payload, 5),
                from_seq: get_u8(payload, 6),
                from_pos: get_u8(payload, 7),
                to_player: get_u8(payload, 8),
                to_loc: get_u8(payload, 9),
                to_seq: get_u8(payload, 10),
                to_pos: get_u8(payload, 11),
                reason: get_i32(payload, 12),
            })
        } else {
            None
        }
    }

    /// The canonical payload of this message.
    pub fn encode(&self) -> (r: Vec<u8>)
        ensures
            r@ == spec_encode_move_msg(*self),
    {
        let mut out: Vec<u8> = Vec::new();
        put_u32(&mut out, self.code);
        out.push(self.from_player);
        out.push(self.from_loc);
        out.push(self.from_seq);
        out.push(self.from_pos);
        out.push(self.to_player);
        out.push(self.to_loc);
        out.push(self.to_seq);
        out.push(self.to_pos);
        put_i32(&mut out, self.reason);
        proof {
            assert(out@ =~= spec_encode_move_msg(*self));
        }
        out
    }
}

/// Decoding the canonical payload of this message gives the message back.
pub proof fn lemma_move_msg_round_trip(m: MsgMove)
    ensures
        spec_parse_move_msg(spec_encode_move_msg(m)) == Some(m),
{
    lemma_auto_spec_u32_to_from_le_bytes();
    lemma_i32_u32_casts();
    let enc = spec_encode_move_msg(m);
    assert(enc.subrange(0, 4) =~= spec_u32_to_le_bytes(m.code));
    assert(enc.subrange(12, 16) =~= spec_u32_to_le_bytes(m.reason as u32));
}

/// A chain link being formed: the activating card, its place, the target place, a description and the chain type.
#[derive(Debug, Clone, Copy, PartialEq, Eq)]
pub struct MsgChaining {
    pub code: u32,
    pub src_player: u8,
    pub src_loc: u8,
    pub src_seq: u8,
    pub src_sub: u8,
    pub trg_player: u8,
    pub trg_loc: u8,
    pub trg_seq: u8,
    pub desc: i32,
    pub ctype: u8,
}

/// What parsing a payload as this message yields.
pub open spec fn spec_parse_chaining(p: Seq<u8>) -> Option<MsgChaining> {
    if p.len() >= 16 {
        Some(MsgChaining { code: spec_u32_at(p, 0), src_player: spec_u8_at(p, 4), src_loc: spec_u8_at(p, 5), src_seq: spec_u8_at(p, 6), src_sub: spec_u8_at(p, 7), trg_player: spec_u8_at(p, 8), trg_loc: spec_u8_at(p, 9), trg_seq: spec_u8_at(p, 10), desc: spec_i32_at(p, 11), ctype: spec_u8_at(p, 15) })
    } else {
        None
    }
}

/// The canonical payload of this message.
pub open spec fn spec_encode_chaining(m: MsgChaining) -> Seq<u8> {
    spec_u32_to_le_bytes(m.code) + seq![m.src_player] + seq![m.src_loc] + seq![m.src_seq] + seq![m.src_sub] + seq![m.trg_player] + seq![m.trg_loc] + seq![m.trg_seq] + spec_u32_to_le_bytes(m.desc as u32) + seq![m.ctype]
}

impl MsgChaining {
    /// Parse a payload as this message; trailing bytes are ignored.
    pub fn parse(payload: &[u8]) -> (r: Option<MsgChaining>)
        ensures
            r == spec_parse_chaining(payload@),
    {
        if payload.len() >= 16 {
            Some(MsgChaining {
                code: get_u32(payload, 0),
                src_player: get_u8(payload, 4),
                src_loc: get_u8(payload, 5),
                src_seq: get_u8(payload, 6),
                src_sub: get_u8(payload, 7),
                trg_player: get_u8(payload, 8),
                trg_loc: get_u8(payload, 9),
                trg_seq: get_u8(payload, 10),
                desc: get_i32(payload, 11),
                ctype: get_u8(payload, 15),
            })
        } else {
            None
        }
    }

    /// The canonical payload of this message.
    pub fn encode(&self) -> (r: Vec<u8>)
        ensures
            r@ == spec_encode_chaining(*self),
    {
        let mut out: Vec<u8> = Vec::new();
        put_u32(&mut out, self.code);
        out.push(self.src_player);
        out.push(self.src_loc);
        out.push(self.src_seq);
        out.push(self.src_sub);
        out.push(self.trg_player);
        out.push(self.trg_loc);
        out.push(self.trg_seq);
        put_i32(&mut out, self.desc);
        out.push(self.ctype);
        proof {
            assert(out@ =~= spec_encode_chaining(*self));
        }
        out
    }
}

/// Decoding the canonical payload of this message gives the message back.
pub proof fn lemma_chaining_round_trip(m: MsgChaining)
    ensures
        spec_parse_chaining(spec_encode_chaining(m)) == Some(m),
{
    lemma_auto_spec_u32_to_from_le_bytes();
    lemma_i32_u32_casts();
    let enc = spec_encode_chaining(m);
    assert(enc.subrange(0, 4) =~= spec_u32_to_le_bytes(m.code));
    assert(enc.subrange(11, 15) =~= spec_u32_to_le_bytes(m.desc as u32));
}


/// The duel start announcement: player type, rule, both starting life-point
/// totals and both deck and extra-deck counts.
#[derive(Debug, Clone, Copy, PartialEq, Eq)]
pub struct MsgStart {
    pub player_type: u8,
    pub duel_rule: u8,
    pub lp: [u32; 2],
    pub deck_count: [u16; 2],
    pub extra_count: [u16; 2],
}

/// What parsing a payload as a start message yields.
pub open spec fn spec_parse_start(p: Seq<u8>) -> Option<MsgStart> {
    if p.len() >= 18 {
        Some(
            MsgStart {
                player_type: spec_u8_at(p, 0),
                duel_rule: spec_u8_at(p, 1),
                lp: [spec_u32_at(p, 2), spec_u32_at(p, 6)],
                deck_count: [spec_u16_at(p, 10), spec_u16_at(p, 12)],
                extra_count: [spec_u16_at(p, 14), spec_u16_at(p, 16)],
            },
        )
    } else {
        None
    }
}

/// The canonical payload of a start message.
pub open spec fn spec_encode_start(m: MsgStart) -> Seq<u8> {
    seq![m.player_type, m.duel_rule] + spec_u32_to_le_bytes(m.lp[0]) + spec_u32_to_le_bytes(
        m.lp[1],
    ) + spec_u16_to_le_bytes(m.deck_count[0]) + spec_u16_to_le_bytes(m.deck_count[1])
        + spec_u16_to_le_bytes(m.extra_count[0]) + spec_u16_to_le_bytes(m.extra_count[1])
}

impl MsgStart {
    /// Parse a payload as a start message; trailing bytes are ignored.
    pub fn parse(payload: &[u8]) -> (r: Option<MsgStart>)
        ensures
            r == spec_parse_start(payload@),
    {
        if payload.len() >= 18 {
            Some(
                MsgStart {
                    player_type: get_u8(payload, 0),
                    duel_rule: get_u8(payload, 1),
                    lp: [get_u32(payload, 2), get_u32(payload, 6)],
                    deck_count: [get_u16(payload, 10), get_u16(payload, 12)],
                    extra_count: [get_u16(payload, 14), get_u16(payload, 16)],
                },
            )
        } else {
            None
        }
    }

    /// The canonical payload of a start message.
    pub fn encode(&self) -> (r: Vec<u8>)
        ensures
            r@ == spec_encode_start(*self),
    {
        let mut out: Vec<u8> = Vec::new();
        out.push(self.player_type);
        out.push(self.duel_rule);
        put_u32(&mut out, self.lp[0]);
        put_u32(&mut out, self.lp[1]);
        put_u16(&mut out, self.deck_count[0]);
        put_u16(&mut out, self.deck_count[1]);
        put_u16(&mut out, self.extra_count[0]);
        put_u16(&mut out, self.extra_count[1]);
        proof {
            assert(out@ =~= spec_encode_start(*self));
        }
        out
    }
}

/// Decoding the canonical payload of a start message gives the message back.
pub proof fn lemma_start_round_trip(m: MsgStart)
    ensures
        spec_parse_start(spec_encode_start(m)) == Some(m),
{
    lemma_auto_spec_u32_to_from_le_bytes();
    lemma_auto_spec_u16_to_from_le_bytes();
    let enc = spec_encode_start(m);
    assert(enc.subrange(2, 6) =~= spec_u32_to_le_bytes(m.lp[0]));
    assert(enc.subrange(6, 10) =~= spec_u32_to_le_bytes(m.lp[1]));
    assert(enc.subrange(10, 12) =~= spec_u16_to_le_bytes(m.deck_count[0]));
    assert(enc.subrange(12, 14) =~= spec_u16_to_le_bytes(m.deck_count[1]));
    assert(enc.subrange(14, 16) =~= spec_u16_to_le_bytes(m.extra_count[0]));
    assert(enc.subrange(16, 18) =~= spec_u16_to_le_bytes(m.extra_count[1]));
    let q = spec_parse_start(enc).unwrap();
    assert(q.lp =~= m.lp);
    assert(q.deck_count =~= m.deck_count);
    assert(q.extra_count =~= m.extra_count);
}

/// A summon announcement: the card, its place and position, and — when the
/// payload carries them — its attack and level.
#[derive(Debug, Clone, Copy, PartialEq, Eq)]
pub struct MsgSummoning {
    pub code: u32,
    pub player: u8,
    pub loc: u8,
    pub seq: u8,
    pub pos: u8,
    pub attack: Option<i32>,
    pub level: Option<u8>,
}

/// What parsing a payload as a summon message yields: the fixed eight bytes,
/// then an attack value if four more bytes follow, then a level byte if one
/// more follows.
pub open spec fn spec_parse_summoning(p: Seq<u8>) -> Option<MsgSummoning> {
    if p.len() >= 8 {
        Some(
            MsgSummoning {
                code: spec_u32_at(p, 0),
                player: spec_u8_at(p, 4),
                loc: spec_u8_at(p, 5),
                seq: spec_u8_at(p, 6),
                pos: spec_u8_at(p, 7),
                attack: if p.len() >= 12 {
                    Some(spec_i32_at(p, 8))
                } else {
                    None
                },
                level: if p.len() >= 12 {
                    if p.len() >= 13 {
                        Some(spec_u8_at(p, 12))
                    } else {
                        None
                    }
                } else {
                    if p.len() >= 9 {
                        Some(spec_u8_at(p, 8))
                    } else {
                        None
                    }
                },
            },
        )
    } else {
        None
    }
}

/// The canonical payload of a summon message.
pub open spec fn spec_encode_summoning(m: MsgSummoning) -> Seq<u8> {
    spec_u32_to_le_bytes(m.code) + seq![m.player, m.loc, m.seq, m.pos] + (match m.attack {
        Some(a) => spec_u32_to_le_bytes(a as u32),
        None => Seq::empty(),
    }) + (match m.level {
        Some(l) => seq![l],
        None => Seq::empty(),
    })
}

impl MsgSummoning {
    /// Parse a payload as a summon message; trailing bytes are ignored.
    pub fn parse(payload: &[u8]) -> (r: Option<MsgSummoning>)
        ensures
            r == spec_parse_summoning(payload@),
    {
        if payload.len() >= 8 {
            let attack = if payload.len() >= 12 {
                Some(get_i32(payload, 8))
            } else {
                None
            };
            let level = if payload.len() >= 12 {
                if payload.len() >= 13 {
                    Some(get_u8(payload, 12))
                } else {
                    None
                }
            } else {
                if payload.len() >= 9 {
                    Some(get_u8(payload, 8))
                } else {
                    None
                }
            };
            Some(
                MsgSummoning {
                    code: get_u32(payload, 0),
                    player: get_u8(payload, 4),
                    loc: get_u8(payload, 5),
                    seq: get_u8(payload, 6),
                    pos: get_u8(payload, 7),
                    attack,
                    level,
                },
            )
        } else {
            None
        }
    }

    /// The canonical payload of a summon message.
    pub fn encode(&self) -> (r: Vec<u8>)
        ensures
            r@ == spec_encode_summoning(*self),
    {
        let mut out: Vec<u8> = Vec::new();
        put_u32(&mut out, self.code);
        out.push(self.player);
        out.push(self.loc);
        out.push(self.seq);
        out.push(self.pos);
        match self.attack {
            Some(a) => {
                put_i32(&mut out, a);
            },
            None => {},
        }
        match self.level {
            Some(l) => {
                out.push(l);
            },
            None => {},
        }
        proof {
            assert(out@ =~= spec_encode_summoning(*self));
        }
        out
    }
}

/// Decoding the canonical payload of a summon message gives the message
/// back.
pub proof fn lemma_summoning_round_trip(m: MsgSummoning)
    ensures
        spec_parse_summoning(spec_encode_summoning(m)) == Some(m),
{
    lemma_auto_spec_u32_to_from_le_bytes();
    lemma_i32_u32_casts();
    let enc = spec_encode_summoning(m);
    assert(enc.subrange(0, 4) =~= spec_u32_to_le_bytes(m.code));
    match m.attack {
        Some(a) => {
            assert(enc.subrange(8, 12) =~= spec_u32_to_le_bytes(a as u32));
        },
        None => {},
    }
}

/// A special-summon announcement; the payload has the same shape as a summon
/// announcement.
#[derive(Debug, Clone, Copy, PartialEq, Eq)]
pub struct MsgSpSummoning {
    pub code: u32,
    pub player: u8,
    pub loc: u8,
    pub seq: u8,
    pub pos: u8,
    pub attack: Option<i32>,
    pub level: Option<u8>,
}

/// What parsing a payload as a special-summon message yields.
pub open spec fn spec_parse_sp_summoning(p: Seq<u8>) -> Option<MsgSpSummoning> {
    if p.len() >= 8 {
        Some(
            MsgSpSummoning {
                code: spec_u32_at(p, 0),
                player: spec_u8_at(p, 4),
                loc: spec_u8_at(p, 5),
                seq: spec_u8_at(p, 6),
                pos: spec_u8_at(p, 7),
                attack: if p.len() >= 12 {
                    Some(spec_i32_at(p, 8))
                } else {
                    None
                },
                level: if p.len() >= 12 {
                    if p.len() >= 13 {
                        Some(spec_u8_at(p, 12))
                    } else {
                        None
                    }
                } else {
                    if p.len() >= 9 {
                        Some(spec_u8_at(p, 8))
                    } else {
                        None
                    }
                },
            },
        )
    } else {
        None
    }
}

/// The canonical payload of a special-summon message.
pub open spec fn spec_encode_sp_summoning(m: MsgSpSummoning) -> Seq<u8> {
    spec_u32_to_le_bytes(m.code) + seq![m.player, m.loc, m.seq, m.pos] + (match m.attack {
        Some(a) => spec_u32_to_le_bytes(a as u32),
        None => Seq::empty(),
    }) + (match m.level {
        Some(l) => seq![l],
        None => Seq::empty(),
    })
}

impl MsgSpSummoning {
    /// Parse a payload as a special-summon message; trailing bytes are
    /// ignored.
    pub fn parse(payload: &[u8]) -> (r: Option<MsgSpSummoning>)
        ensures
            r == spec_parse_sp_summoning(payload@),
    {
        if payload.len() >= 8 {
            let attack = if payload.len() >= 12 {
                Some(get_i32(payload, 8))
            } else {
                None
            };
            let level = if payload.len() >= 12 {
                if payload.len() >= 13 {
                    Some(get_u8(payload, 12))
                } else {
                    None
                }
            } else {
                if payload.len() >= 9 {
                    Some(get_u8(payload, 8))
                } else {
                    None
                }
            };
            Some(
                MsgSpSummoning {
                    code: get_u32(payload, 0),
                    player: get_u8(payload, 4),
                    loc: get_u8(payload, 5),
                    seq: get_u8(payload, 6),
                    pos: get_u8(payload, 7),
                    attack,
                    level,
                },
            )
        } else {
            None
        }
    }

    /// The canonical payload of a special-summon message.
    pub fn encode(&self) -> (r: Vec<u8>)
        ensures
            r@ == spec_encode_sp_summoning(*self),
    {
        let mut out: Vec<u8> = Vec::new();
        put_u32(&mut out, self.code);
        out.push(self.player);
        out.push(self.loc);
        out.push(self.seq);
        out.push(self.pos);
        match self.attack {
            Some(a) => {
                put_i32(&mut out, a);
            },
            None => {},
        }
        match self.level {
            Some(l) => {
                out.push(l);
            },
            None => {},
        }
        proof {
            assert(out@ =~= spec_encode_sp_summoning(*self));
        }
        out
    }
}

/// Decoding the canonical payload of a special-summon message gives the
/// message back.
pub proof fn lemma_sp_summoning_round_trip(m: MsgSpSummoning)
    ensures
        spec_parse_sp_summoning(spec_encode_sp_summoning(m)) == Some(m),
{
    lemma_auto_spec_u32_to_from_le_bytes();
    lemma_i32_u32_casts();
    let enc = spec_encode_sp_summoning(m);
    assert(enc.subrange(0, 4) =~= spec_u32_to_le_bytes(m.code));
    match m.attack {
        Some(a) => {
            assert(enc.subrange(8, 12) =~= spec_u32_to_le_bytes(a as u32));
        },
        None => {},
    }
}

/// A text hint shown to the player: a NUL-terminated little-endian UTF-16
/// string.
#[derive(Debug, Clone, PartialEq, Eq)]
pub struct MsgShowHint {
    pub message: String,
}

impl MsgShowHint {
    /// Parse a payload as a show-hint message: the code units up to the
    /// first NUL, decoded as text.
    pub fn parse(payload: &[u8]) -> (r: Option<MsgShowHint>)
        ensures
            r is Some,
            r.unwrap().message@ == crate::text::utf16_lossy(
                crate::text::spec_utf16_units(payload@),
            ),
    {
        let units = crate::text::utf16_units_until_nul(payload);
        let message = crate::text::utf16_lossy_to_string(&units);
        Some(MsgShowHint { message })
    }
}

/// The little-endian words of the first `n` effect ids, in order.
pub open spec fn effect_id_bytes_upto(ids: Seq<crate::types::EffectId>, n: int) -> Seq<u8>
    decreases n,
{
    if n <= 0 {
        Seq::empty()
    } else {
        effect_id_bytes_upto(ids, n - 1) + spec_u32_to_le_bytes(ids[n - 1].0)
    }
}

/// The little-endian words of the effect ids, in order.
pub open spec fn effect_id_bytes(ids: Seq<crate::types::EffectId>) -> Seq<u8> {
    effect_id_bytes_upto(ids, ids.len() as int)
}

/// The chain-selection prompt packet: the tag, the prompted player, the
/// number of triggered effects (as one byte) and each triggered effect id as
/// a little-endian word.
pub open spec fn spec_select_chain_msg(player: u8, triggered: Seq<crate::types::EffectId>) -> Seq<
    u8,
> {
    seq![spec_msg_tag(MsgType::SelectChain), player, triggered.len() as u8] + effect_id_bytes(
        triggered,
    )
}

/// Build the chain-selection prompt packet describing the triggered effects.
pub fn select_chain_msg(player: u8, triggered: &Vec<crate::types::EffectId>) -> (r: Vec<u8>)
    ensures
        r@ == spec_select_chain_msg(player, triggered@),
{
    let mut out: Vec<u8> = Vec::new();
    out.push(MsgType::SelectChain.tag());
    out.push(player);
    out.push(#[verifier::truncate] (triggered.len() as u8));
    let ghost header = out@;
    let n = triggered.len();
    let mut i: usize = 0;
    proof {
        assert(out@ =~= header + effect_id_bytes_upto(triggered@, 0));
    }
    while i < n
        invariant
            n == triggered@.len(),
            i <= n,
            header == seq![
                spec_msg_tag(MsgType::SelectChain),
                player,
                triggered@.len() as u8,
            ],
            out@ == header + effect_id_bytes_upto(triggered@, i as int),
        decreases n - i,
    {
        put_u32(&mut out, triggered[i].0);
        proof {
            assert(out@ =~= header + effect_id_bytes_upto(triggered@, i + 1));
        }
        i = i + 1;
    }
    out
}

} // verus!
