//! The operations on one cell, step by step, and worlds in which any number
//! of them run side by side on the same cell.
//!
//! An operation touches the cell once per step. `advance` says what one
//! step does; `reached` follows a single operation along the states it
//! finds; `run` lets many operations take their steps in any order.

use vstd::prelude::*;
use crate::error::OnceInitError;
use crate::phase::Claim;
use crate::phase::claim_of;
use crate::phase::fill_reply;
use crate::phase::OnceInitState;
use crate::phase::Phase;
use crate::phase::read_reply;
use crate::phase::reported;
use crate::phase::slot_after_fill;
use crate::phase::SPIN_LIMIT;

verus! {

/// The shared part of a cell as all callers see it at one instant: the phase
/// that the tag stands for, and the slot.
pub struct Shared<V> {
    pub phase: Phase,
    pub slot: Option<V>,
}

/// An operation that a caller runs on the cell.
pub enum Call<V> {
    /// Read the value.
    Get,
    /// Ask whether a value is stored.
    State,
    /// Store this value.
    Init(V),
}

/// What an operation hands back to its caller.
pub enum Reply<V> {
    /// The result of a read.
    Got(Result<V, OnceInitError>),
    /// The answer to a state query.
    Told(OnceInitState),
    /// The result of a write.
    Stored(Result<(), OnceInitError>),
}

/// How far an operation has come. Between two of these points the operation
/// touches the cell exactly once, atomically.
pub enum Stage<V> {
    /// Nothing done yet.
    Start,
    /// The cell was seen being initialised; so many re-reads of the tag are left.
    Wait(nat),
    /// A read saw the published tag and is about to copy the slot.
    Fetch,
    /// A write has claimed the cell and is about to fill the slot.
    Fill,
    /// A write has dealt with the slot and is about to publish.
    Publish(Result<(), OnceInitError>),
    /// The operation has returned.
    Done(Reply<V>),
}

/// One running operation.
pub struct Op<V> {
    pub call: Call<V>,
    pub stage: Stage<V>,
}

/// A cell together with all the operations that callers run on it.
pub struct World<V> {
    pub cell: Shared<V>,
    pub ops: Seq<Op<V>>,
}

impl<V> Op<V> {
    /// The operation is inside the critical section of a write.
    pub open spec fn owns(self) -> bool {
        self.stage is Fill || self.stage is Publish
    }

    /// The operation is the write that claimed the cell.
    pub open spec fn won(self) -> bool {
        self.owns() || self.stage == Stage::<V>::Done(Reply::Stored(Ok(())))
    }

    /// The operation has returned.
    pub open spec fn done(self) -> bool {
        self.stage is Done
    }
}

impl<V> World<V> {
    /// Operation `k` is a write that has returned success.
    pub open spec fn succeeded(self, k: int) -> bool {
        0 <= k < self.ops.len() && self.ops[k].stage == Stage::<V>::Done(Reply::Stored(Ok(())))
    }

    /// Operation `g` is a read that has returned the value `x`.
    pub open spec fn has_read(self, g: int, x: V) -> bool {
        0 <= g < self.ops.len() && self.ops[g].stage == Stage::<V>::Done(Reply::Got(Ok(x)))
    }
}

/// Where an operation stands once its waiting is over, given the last phase
/// it saw.
pub open spec fn after_wait<V>(call: Call<V>, last: Phase) -> Stage<V> {
    match call {
        Call::Get => if last is Initialized {
            Stage::Fetch
        } else {
            Stage::Done(Reply::Got(read_reply(last, None)))
        },
        Call::State => Stage::Done(Reply::Told(reported(last))),
        Call::Init(_) => Stage::Done(Reply::Stored(Err(OnceInitError::DataInitialized))),
    }
}

/// The position of an operation that waits with `left` re-reads to go.
pub open spec fn waiting<V>(left: u64) -> Stage<V> {
    Stage::Wait(left as nat)
}

/// Where an operation stands after one look at a cell in phase `seen`.
pub open spec fn after_look<V>(call: Call<V>, seen: Phase) -> Stage<V> {
    if seen is Initializing {
        waiting(SPIN_LIMIT)
    } else {
        after_wait(call, seen)
    }
}

/// The cell after the claiming exchange: an untouched cell becomes
/// `Initializing`, any other cell stays as it is.
pub open spec fn after_exchange<V>(cell: Shared<V>) -> Shared<V> {
    if cell.phase is Uninitialized {
        Shared { phase: Phase::Initializing, slot: cell.slot }
    } else {
        cell
    }
}

/// One atomic step of operation `op` on `cell`: the cell and the
/// operation's position afterwards.
pub open spec fn advance<V>(cell: Shared<V>, op: Op<V>) -> (Shared<V>, Stage<V>) {
    match (op.stage, op.call) {
        (Stage::Start, Call::Init(_)) => (
            after_exchange(cell),
            match claim_of(cell.phase) {
                Claim::Won => Stage::Fill,
                Claim::Busy => waiting(SPIN_LIMIT),
                Claim::Late => Stage::Done(Reply::Stored(Err(OnceInitError::DataInitialized))),
            },
        ),
        (Stage::Start, _) => (cell, after_look(op.call, cell.phase)),
        (Stage::Wait(left), _) => if left == 0 {
            (cell, after_wait(op.call, Phase::Initializing))
        } else if cell.phase is Initializing {
            (cell, Stage::Wait((left - 1) as nat))
        } else {
            (cell, after_wait(op.call, cell.phase))
        },
        (Stage::Fetch, Call::Get) => (cell, Stage::Done(Reply::Got(read_reply(Phase::Initialized, cell.slot)))),
        (Stage::Fill, Call::Init(v)) => (
            Shared { phase: cell.phase, slot: slot_after_fill(cell.slot, v) },
            Stage::Publish(fill_reply(cell.slot)),
        ),
        (Stage::Publish(reply), Call::Init(_)) => (
            Shared { phase: Phase::Initialized, slot: cell.slot },
            Stage::Done(Reply::Stored(reply)),
        ),
        _ => (cell, op.stage),
    }
}

/// The position that an operation called as `call` has reached after it has
/// stepped once on each of the cells in `seen`, in their order: `seen[k]` is
/// the cell as the operation found it at its step `k`.
pub open spec fn reached<V>(call: Call<V>, seen: Seq<Shared<V>>) -> Stage<V>
    decreases seen.len(),
{
    if seen.len() == 0 {
        Stage::Start
    } else {
        advance(seen.last(), Op { call, stage: reached(call, seen.drop_last()) }).1
    }
}

/// One more step on `cell` takes the operation from where it was to where
/// `advance` puts it.
pub proof fn lemma_reached_push<V>(call: Call<V>, seen: Seq<Shared<V>>, cell: Shared<V>)
    ensures
        reached(call, seen.push(cell)) == advance(cell, Op { call, stage: reached(call, seen) }).1,
{
    assert(seen.push(cell).drop_last() =~= seen);
}

/// An operation that waits with `left` re-reads to go and then steps `looks`
/// times, `looks` no more than `left`, on a cell that is still being
/// initialised, waits on with `left - looks` re-reads to go.
pub proof fn lemma_wait_through<V>(
    call: Call<V>,
    seen: Seq<Shared<V>>,
    busy: Shared<V>,
    looks: u64,
    left: u64,
)
    requires
        reached(call, seen) == waiting::<V>(left),
        busy.phase is Initializing,
        looks <= left,
    ensures
        reached(call, seen + Seq::new(looks as nat, |k: int| busy)) == waiting::<V>(
            (left - looks) as u64,
        ),
    decreases looks,
{
    let all = Seq::new(looks as nat, |k: int| busy);
    if looks == 0 {
        assert(seen + all =~= seen);
    } else {
        let fewer = Seq::new((looks - 1) as nat, |k: int| busy);
        lemma_wait_through(call, seen, busy, (looks - 1) as u64, left);
        lemma_reached_push(call, seen + fewer, busy);
        assert((seen + fewer).push(busy) =~= seen + all);
    }
}

/// The states that an operation steps on while it waits, when it makes
/// `looks` re-reads and the last phase it sees is `last`: the cell being
/// initialised at every step but the last, and the cell in phase `last`
/// then. A wait that gives up has found the cell being initialised on every
/// re-read and takes one step more to leave. Nobody looks at the slot in
/// these steps; it is written down as `slot` throughout.
pub open spec fn waited<V>(slot: Option<V>, last: Phase, looks: u64) -> Seq<Shared<V>> {
    let busy = Shared { phase: Phase::Initializing, slot };
    let found = Shared { phase: last, slot };
    if last is Initializing {
        Seq::new(looks as nat, |k: int| busy).push(found)
    } else {
        Seq::new((looks - 1) as nat, |k: int| busy).push(found)
    }
}

/// An operation that has seen the cell being initialised, then makes `looks`
/// re-reads as `wait_out` does and sees `last` at the end, stands where its
/// call stands after a wait that ended on `last`.
pub proof fn lemma_wait_out<V>(
    call: Call<V>,
    seen: Seq<Shared<V>>,
    slot: Option<V>,
    last: Phase,
    looks: u64,
)
    requires
        reached(call, seen) == after_look(call, Phase::Initializing),
        looks <= SPIN_LIMIT,
        last is Initializing ==> looks == SPIN_LIMIT,
        !(last is Initializing) ==> looks >= 1,
    ensures
        reached(call, seen + waited(slot, last, looks)) == after_wait(call, last),
        forall|k: int|
            0 <= k < waited(slot, last, looks).len() ==> (#[trigger] waited(slot, last, looks)[k]).slot
                == slot,
{
    let busy = Shared { phase: Phase::Initializing, slot };
    let found = Shared { phase: last, slot };
    let quiet: u64 = if last is Initializing {
        looks
    } else {
        (looks - 1) as u64
    };
    let before = Seq::new(quiet as nat, |k: int| busy);
    lemma_wait_through(call, seen, busy, quiet, SPIN_LIMIT);
    lemma_reached_push(call, seen + before, found);
    assert((seen + before).push(found) =~= seen + waited(slot, last, looks));
}

/// What holds of the position of an operation wherever it stands, when
/// every cell it has stepped on obeyed the rule of a cell built with the
/// slot `preset`: the position belongs to the call, a value that was read
/// is the preset one if there is one, a write has succeeded only on a cell
/// without, and the errors are those of the call.
pub open spec fn on_track<V>(call: Call<V>, stage: Stage<V>, preset: Option<V>) -> bool {
    match stage {
        Stage::Start => true,
        Stage::Wait(_) => true,
        Stage::Fetch => call is Get,
        Stage::Fill => call is Init,
        Stage::Publish(reply) => call is Init && match reply {
            Ok(_) => preset is None,
            Err(e) => e == OnceInitError::DataInitialized,
        },
        Stage::Done(Reply::Got(got)) => call is Get && match got {
            Ok(v) => preset matches Some(d) ==> v == d,
            Err(e) => e == OnceInitError::DataUninitialized,
        },
        Stage::Done(Reply::Told(_)) => call is State,
        Stage::Done(Reply::Stored(reply)) => call is Init && match reply {
            Ok(_) => preset is None,
            Err(e) => e == OnceInitError::DataInitialized,
        },
    }
}

/// The world after operation `i` has taken its next step.
pub open spec fn step<V>(w: World<V>, i: int) -> World<V> {
    if 0 <= i < w.ops.len() {
        let next = advance(w.cell, w.ops[i]);
        World { cell: next.0, ops: w.ops.update(i, Op { call: w.ops[i].call, stage: next.1 }) }
    } else {
        w
    }
}

/// The world after the operations have stepped in the order that
/// `schedule` gives.
pub open spec fn run<V>(w: World<V>, schedule: Seq<int>) -> World<V>
    decreases schedule.len(),
{
    if schedule.len() == 0 {
        w
    } else {
        step(run(w, schedule.drop_last()), schedule.last())
    }
}

/// The cells that operation `i` has stepped on while the world ran through
/// `schedule`, one for each of its steps, in their order.
pub open spec fn met<V>(w: World<V>, schedule: Seq<int>, i: int) -> Seq<Shared<V>>
    decreases schedule.len(),
{
    if schedule.len() == 0 {
        Seq::empty()
    } else if schedule.last() == i {
        met(w, schedule.drop_last(), i).push(run(w, schedule.drop_last()).cell)
    } else {
        met(w, schedule.drop_last(), i)
    }
}

/// Whether an operation that stands at `stage`, having stepped on the cells
/// `met` and left the cell as `cell`, has a reason for what it returned. A
/// read that failed and a state query that answered `UNINITIALIZED` looked
/// first at an untouched cell; a write that was refused left the cell
/// published. The one other reason is that the operation ran out of
/// re-reads, for which it has taken more than `SPIN_LIMIT` steps.
pub open spec fn excused<V>(op: Op<V>, cell: Shared<V>, met: Seq<Shared<V>>) -> bool {
    let ran_out = met.len() > SPIN_LIMIT;
    match op.stage {
        Stage::Done(Reply::Got(Err(_))) => met.len() >= 1 && (met[0].phase is Uninitialized
            || ran_out),
        Stage::Done(Reply::Told(OnceInitState::UNINITIALIZED)) => met.len() >= 1 && (
        met[0].phase is Uninitialized || ran_out),
        Stage::Done(Reply::Stored(Err(_))) => cell.phase is Initialized || ran_out,
        Stage::Wait(left) => left + met.len() == SPIN_LIMIT + 1,
        _ => true,
    }
}

/// What the cell's content demands of one operation's position.
pub open spec fn fits<V>(cell: Shared<V>, op: Op<V>) -> bool {
    match op.stage {
        Stage::Start => true,
        Stage::Wait(_) => !(cell.phase is Uninitialized),
        Stage::Fetch => op.call is Get && cell.phase is Initialized,
        Stage::Fill => op.call is Init && cell.phase is Initializing && cell.slot is None,
        Stage::Publish(reply) => op.call matches Call::Init(v) && cell.phase is Initializing
            && reply is Ok && cell.slot == Some(v),
        Stage::Done(Reply::Got(Ok(x))) => op.call is Get && cell.phase is Initialized && cell.slot
            == Some(x),
        Stage::Done(Reply::Got(Err(e))) => op.call is Get && e == OnceInitError::DataUninitialized,
        Stage::Done(Reply::Told(s)) => op.call is State && (s is INITIALIZED ==> cell.phase
            is Initialized),
        Stage::Done(Reply::Stored(Ok(_))) => op.call matches Call::Init(v) && cell.phase is Initialized
            && cell.slot == Some(v),
        Stage::Done(Reply::Stored(Err(e))) => op.call is Init && e == OnceInitError::DataInitialized
            && !(cell.phase is Uninitialized),
    }
}

/// The invariant of the protocol: the slot is empty before the claim and
/// full after publication, a cell is being initialised only while a write is
/// inside its critical section, every operation's position fits the cell,
/// and at most one write has claimed the cell.
pub open spec fn sound<V>(w: World<V>) -> bool {
    &&& w.cell.phase is Uninitialized ==> w.cell.slot is None
    &&& w.cell.phase is Initialized ==> w.cell.slot is Some
    &&& w.cell.phase is Initializing ==> exists|i: int|
        0 <= i < w.ops.len() && (#[trigger] w.ops[i]).owns()
    &&& forall|i: int| 0 <= i < w.ops.len() ==> fits(w.cell, #[trigger] w.ops[i])
    &&& forall|i: int, j: int|
        0 <= i < w.ops.len() && 0 <= j < w.ops.len() && (#[trigger] w.ops[i]).won() && (
        #[trigger] w.ops[j]).won() ==> i == j
}

/// A world in which nothing has happened yet: the cell is untouched and no
/// operation has started.
pub open spec fn fresh<V>(w: World<V>) -> bool {
    &&& w.cell.phase is Uninitialized
    &&& w.cell.slot is None
    &&& forall|i: int| 0 <= i < w.ops.len() ==> (#[trigger] w.ops[i]).stage is Start
}

/// A sound world that grew out of a fresh one: whenever the cell has left
/// its first phase, one of the writes is the one that claimed it, and every
/// write that has started has found the cell claimed.
pub open spec fn raced<V>(w: World<V>) -> bool {
    &&& sound(w)
    &&& !(w.cell.phase is Uninitialized) ==> exists|j: int|
        0 <= j < w.ops.len() && (#[trigger] w.ops[j]).won()
    &&& forall|i: int|
        0 <= i < w.ops.len() && (#[trigger] w.ops[i]).call is Init && !(w.ops[i].stage is Start)
            ==> !(w.cell.phase is Uninitialized)
}

/// A world around a cell that was built holding `d`: the cell is published
/// from the start and no operation has begun.
pub open spec fn prebuilt<V>(w: World<V>, d: V) -> bool {
    &&& w.cell == (Shared { phase: Phase::Initialized, slot: Some(d) })
    &&& forall|i: int| 0 <= i < w.ops.len() ==> (#[trigger] w.ops[i]).stage is Start
}

/// What a cell that was built holding `d` lets an operation be: not begun,
/// a read about to copy the slot, or returned with the one reply that its
/// call has on such a cell.
pub open spec fn served<V>(op: Op<V>, d: V) -> bool {
    match op.stage {
        Stage::Start => true,
        Stage::Fetch => op.call is Get,
        Stage::Done(reply) => reply == match op.call {
            Call::Get => Reply::Got(Ok(d)),
            Call::State => Reply::Told(OnceInitState::INITIALIZED),
            Call::Init(_) => Reply::Stored(Err(OnceInitError::DataInitialized)),
        },
        _ => false,
    }
}

} // verus!
