//! Processor units: the queue entries that drive turns, phases and
//! interactive decisions.

use vstd::prelude::*;

verus! {

/// Result of processing one unit.
#[derive(Debug, Clone, Copy, PartialEq, Eq, Structural)]
pub enum ProcessResult {
    /// Continue processing the next unit.
    Continue,
    /// Waiting for input or an external event.
    Waiting,
    /// Processing ended: no more units.
    End,
}

/// Types of processor units.
#[derive(Debug, Clone, Copy, PartialEq, Eq, Structural)]
pub enum ProcessorType {
    /// Main turn processing.
    Turn,
    /// Phase event processing.
    PhaseEvent,
    /// Point event processing.
    PointEvent,
    /// Quick effect processing.
    QuickEffect,
    /// Idle command processing.
    IdleCommand,
    /// Card selection processing.
    SelectCard,
    /// Chain selection processing.
    SelectChain,
    /// Battle processing.
    Battle,
    /// Damage calculation.
    DamageCalc,
    /// Summon processing.
    Summon,
    /// Position change.
    Position,
    /// Special summon.
    SpecialSummon,
    /// Normal summon.
    NormalSummon,
    /// Set monster.
    SetMonster,
    /// Set spell/trap.
    SetSpellTrap,
    /// Activate effect.
    ActivateEffect,
    /// Resolve chain.
    ResolveChain,
    /// Solve chain (process chain resolution).
    SolveChain,
}

/// A processor unit: one discrete processing step. Units that interact over
/// several invocations advance `step`; `arg1` and `arg2` carry unit-specific
/// values (for a phase event, `arg1` is the phase mask).
#[derive(Debug, Clone, Copy, PartialEq, Eq, Structural)]
pub struct ProcessorUnit {
    pub type_: ProcessorType,
    pub step: u32,
    pub arg1: u32,
    pub arg2: u32,
}

impl ProcessorUnit {
    /// The unit with the given fields.
    pub open spec fn spec_new(type_: ProcessorType, step: u32, arg1: u32, arg2: u32)
        -> ProcessorUnit {
        ProcessorUnit { type_, step, arg1, arg2 }
    }

    /// Create a new processor unit.
    pub fn new(type_: ProcessorType, step: u32, arg1: u32, arg2: u32) -> (r: Self)
        ensures
            r == ProcessorUnit::spec_new(type_, step, arg1, arg2),
    {
        ProcessorUnit { type_, step, arg1, arg2 }
    }

    /// Create a turn processor unit.
    pub fn turn(step: u32) -> (r: Self)
        ensures
            r == ProcessorUnit::spec_new(ProcessorType::Turn, step, 0, 0),
    {
        ProcessorUnit::new(ProcessorType::Turn, step, 0, 0)
    }

    /// Create a phase event processor unit.
    pub fn phase_event(step: u32, phase: u32) -> (r: Self)
        ensures
            r == ProcessorUnit::spec_new(ProcessorType::PhaseEvent, step, phase, 0),
    {
        ProcessorUnit::new(ProcessorType::PhaseEvent, step, phase, 0)
    }

    /// Create a solve chain processor unit.
    pub fn solve_chain(step: u32) -> (r: Self)
        ensures
            r == ProcessorUnit::spec_new(ProcessorType::SolveChain, step, 0, 0),
    {
        ProcessorUnit::new(ProcessorType::SolveChain, step, 0, 0)
    }
}

} // verus!
