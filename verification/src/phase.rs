//! The tags and phases of a cell, and the rules by which an operation
//! decides from what it has found in the cell.

use vstd::prelude::*;
use crate::error::OnceInitError;

verus! {

/// Tag stored in a cell that nobody has started to fill.
pub const UNINITIALIZED: usize = 0;

/// Tag stored while the one winning writer fills the slot.
pub const INITIALIZING: usize = 1;

/// Tag stored once the slot is filled; it is never replaced.
pub const INITIALIZED: usize = 2;

/// How often a caller re-reads the tag of a cell that is being initialised
/// before it stops waiting. The critical section it waits for is a single
/// store, so the limit is only there to give the wait a measure. A caller
/// that has used up all its re-reads goes on as if it had found no value: a
/// read fails, a state query answers `UNINITIALIZED`, a write is refused.
pub const SPIN_LIMIT: u64 = 0xffff_ffff_ffff_ffff;

/// What a caller is told about a cell: the transient phase is never reported.
#[derive(Debug, Clone, Copy, PartialEq, Eq, Structural)]
#[allow(non_camel_case_types)]
pub enum OnceInitState {
    /// No value has been stored.
    UNINITIALIZED,
    /// The value has been stored.
    INITIALIZED,
}

/// The three phases a cell moves through, in this order and never backwards.
#[derive(Debug, Clone, Copy, PartialEq, Eq, Structural)]
pub enum Phase {
    /// Nobody has started to fill the cell.
    Uninitialized,
    /// One writer has claimed the cell and has not published yet.
    Initializing,
    /// The value is published.
    Initialized,
}

/// What a writer learns from its attempt to claim the cell.
#[derive(Debug, Clone, Copy, PartialEq, Eq, Structural)]
pub enum Claim {
    /// The cell was untouched: this writer fills it.
    Won,
    /// Another writer is filling it right now.
    Busy,
    /// The cell was filled before.
    Late,
}

impl OnceInitState {
    /// The tag of a cell in this state: `UNINITIALIZED` or `INITIALIZED`.
    pub open spec fn tag_of(self) -> usize {
        match self {
            OnceInitState::UNINITIALIZED => UNINITIALIZED,
            OnceInitState::INITIALIZED => INITIALIZED,
        }
    }

    /// The number that stands for this state, 0 or 2. A cell whose tag is
    /// that number reports this state.
    pub fn tag(self) -> (t: usize)
        ensures
            t == self.tag_of(),
            reported(phase_of_tag(t)) == self,
    {
        match self {
            OnceInitState::UNINITIALIZED => UNINITIALIZED,
            OnceInitState::INITIALIZED => INITIALIZED,
        }
    }
}

impl Phase {
    /// Position of the phase in the cell's life: 0, 1 or 2.
    pub open spec fn rank(self) -> nat {
        match self {
            Phase::Uninitialized => 0,
            Phase::Initializing => 1,
            Phase::Initialized => 2,
        }
    }

    /// The tag that stands for this phase.
    pub open spec fn tag_of(self) -> usize {
        match self {
            Phase::Uninitialized => UNINITIALIZED,
            Phase::Initializing => INITIALIZING,
            Phase::Initialized => INITIALIZED,
        }
    }

    /// The tag that a cell in this phase carries. Every tag that is handed
    /// to the cell is made here, so it decodes to the phase it was made for.
    pub fn tag(self) -> (t: usize)
        ensures
            t == self.tag_of(),
            phase_of_tag(t) == self,
    {
        match self {
            Phase::Uninitialized => UNINITIALIZED,
            Phase::Initializing => INITIALIZING,
            Phase::Initialized => INITIALIZED,
        }
    }
}

/// The phase that a tag stands for. Only the three named tags are ever
/// stored; any other number reads as "nothing stored yet".
pub open spec fn phase_of_tag(tag: usize) -> Phase {
    if tag == INITIALIZING {
        Phase::Initializing
    } else if tag == INITIALIZED {
        Phase::Initialized
    } else {
        Phase::Uninitialized
    }
}

/// What the phase found by the claiming exchange means for the writer.
pub open spec fn claim_of(prior: Phase) -> Claim {
    match prior {
        Phase::Uninitialized => Claim::Won,
        Phase::Initializing => Claim::Busy,
        Phase::Initialized => Claim::Late,
    }
}

/// The slot after a winning writer has offered `data` to it: an empty slot
/// takes the value, a full one keeps what it has.
pub open spec fn slot_after_fill<V>(held: Option<V>, data: V) -> Option<V> {
    match held {
        Some(v) => Some(v),
        None => Some(data),
    }
}

/// What the writer reports for that offer.
pub open spec fn fill_reply<V>(held: Option<V>) -> Result<(), OnceInitError> {
    match held {
        Some(_) => Err(OnceInitError::DataInitialized),
        None => Ok(()),
    }
}

/// What a read returns once the waiting is over: the slot's value if the last
/// phase seen was `Initialized` and the slot is full, the error otherwise.
pub open spec fn read_reply<V>(last: Phase, slot: Option<V>) -> Result<V, OnceInitError> {
    match (last, slot) {
        (Phase::Initialized, Some(v)) => Ok(v),
        _ => Err(OnceInitError::DataUninitialized),
    }
}

/// What a state query reports for the last phase seen.
pub open spec fn reported(last: Phase) -> OnceInitState {
    match last {
        Phase::Initialized => OnceInitState::INITIALIZED,
        _ => OnceInitState::UNINITIALIZED,
    }
}

/// Decodes a tag loaded from a cell.
pub fn phase_of(tag: usize) -> (p: Phase)
    ensures
        p == phase_of_tag(tag),
{
    if tag == INITIALIZING {
        Phase::Initializing
    } else if tag == INITIALIZED {
        Phase::Initialized
    } else {
        Phase::Uninitialized
    }
}

/// Judges a writer's claim from the phase its exchange found.
pub fn claim(prior: Phase) -> (c: Claim)
    ensures
        c == claim_of(prior),
{
    match prior {
        Phase::Uninitialized => Claim::Won,
        Phase::Initializing => Claim::Busy,
        Phase::Initialized => Claim::Late,
    }
}

/// Turns the last phase seen and the slot's content into the result of a read.
pub fn read<V>(last: Phase, slot: Option<V>) -> (r: Result<V, OnceInitError>)
    ensures
        r == read_reply(last, slot),
{
    match last {
        Phase::Initialized => match slot {
            Some(v) => Ok(v),
            None => Err(OnceInitError::DataUninitialized),
        },
        _ => Err(OnceInitError::DataUninitialized),
    }
}

/// Turns the last phase seen into the answer of a state query.
pub fn report(last: Phase) -> (s: OnceInitState)
    ensures
        s == reported(last),
{
    match last {
        Phase::Initialized => OnceInitState::INITIALIZED,
        _ => OnceInitState::UNINITIALIZED,
    }
}

} // verus!
