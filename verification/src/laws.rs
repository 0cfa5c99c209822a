//! What holds of the cell in every world, whatever the order in which its
//! operations take their steps.

use vstd::prelude::*;
use crate::cell::OnceInit;
use crate::error::OnceInitError;
use crate::global::or_default;
use crate::global::StaticDefault;
use crate::model::Call;
use crate::model::excused;
use crate::model::fits;
use crate::model::fresh;
use crate::model::lemma_reached_push;
use crate::model::met;
use crate::model::on_track;
use crate::model::Op;
use crate::model::prebuilt;
use crate::model::raced;
use crate::model::reached;
use crate::model::Reply;
use crate::model::run;
use crate::model::served;
use crate::model::Shared;
use crate::model::sound;
use crate::model::Stage;
use crate::model::step;
use crate::model::World;
use crate::phase::OnceInitState;
use crate::phase::Phase;
use crate::phase::SPIN_LIMIT;

verus! {

/// A step changes neither the number of operations nor what any of them was
/// called to do, and it moves no operation but the one that steps.
pub proof fn lemma_step_frame<V>(w: World<V>, i: int)
    ensures
        step(w, i).ops.len() == w.ops.len(),
        forall|k: int| 0 <= k < w.ops.len() ==> (#[trigger] step(w, i).ops[k]).call == w.ops[k].call,
        forall|k: int| 0 <= k < w.ops.len() && k != i ==> #[trigger] step(w, i).ops[k] == w.ops[k],
{
}

/// Every step keeps the invariant of the protocol.
pub proof fn lemma_step_sound<V>(w: World<V>, i: int)
    requires
        sound(w),
    ensures
        sound(step(w, i)),
{
    let after = step(w, i);
    if 0 <= i < w.ops.len() {
        let op = w.ops[i];
        assert(fits(w.cell, op));
        if after.cell.phase is Initializing {
            if w.cell.phase is Initializing {
                let j = choose|j: int| 0 <= j < w.ops.len() && (#[trigger] w.ops[j]).owns();
                assert(fits(w.cell, w.ops[j]));
                assert(after.ops[j].owns());
            } else {
                assert(after.ops[i].owns());
            }
        }
        assert forall|k: int| 0 <= k < after.ops.len() implies fits(
            after.cell,
            #[trigger] after.ops[k],
        ) by {
            assert(fits(w.cell, w.ops[k]));
            if k != i && w.ops[k].won() && op.won() {
                assert(false);
            }
        }
        assert forall|a: int, b: int|
            0 <= a < after.ops.len() && 0 <= b < after.ops.len() && (#[trigger] after.ops[a]).won()
                && (#[trigger] after.ops[b]).won() implies a == b by {
            assert(fits(w.cell, w.ops[a]));
            assert(fits(w.cell, w.ops[b]));
            if a != b {
                if a != i && b != i {
                    assert(w.ops[a].won() && w.ops[b].won());
                } else if a == i {
                    assert(w.ops[b].won());
                    assert(fits(w.cell, w.ops[b]));
                } else {
                    assert(w.ops[a].won());
                    assert(fits(w.cell, w.ops[a]));
                }
            }
        }
    }
}

/// Whatever the schedule, the number of operations and their calls stay as
/// they were.
pub proof fn lemma_run_frame<V>(w: World<V>, schedule: Seq<int>)
    ensures
        run(w, schedule).ops.len() == w.ops.len(),
        forall|k: int|
            0 <= k < w.ops.len() ==> (#[trigger] run(w, schedule).ops[k]).call == w.ops[k].call,
    decreases schedule.len(),
{
    if schedule.len() > 0 {
        lemma_run_frame(w, schedule.drop_last());
        lemma_step_frame(run(w, schedule.drop_last()), schedule.last());
    }
}

/// Whatever the schedule, the invariant of the protocol holds at its end.
pub proof fn lemma_run_sound<V>(w: World<V>, schedule: Seq<int>)
    requires
        sound(w),
    ensures
        sound(run(w, schedule)),
    decreases schedule.len(),
{
    if schedule.len() > 0 {
        lemma_run_sound(w, schedule.drop_last());
        lemma_step_sound(run(w, schedule.drop_last()), schedule.last());
    }
}

/// A world around a cell that was built holding a value meets the invariant
/// of the protocol.
pub proof fn lemma_prebuilt_is_sound<V>(w: World<V>, d: V)
    requires
        prebuilt(w, d),
    ensures
        sound(w),
{
}

/// The slot goes with the phase: it is empty in an untouched cell and full
/// in a published one, and while no write is inside its critical section it
/// is full exactly when the cell is published.
pub proof fn law_slot_goes_with_phase<V>(w: World<V>)
    requires
        sound(w),
    ensures
        w.cell.phase is Uninitialized ==> w.cell.slot is None,
        w.cell.phase is Initialized ==> w.cell.slot is Some,
        (forall|i: int| 0 <= i < w.ops.len() ==> !(#[trigger] w.ops[i]).owns()) ==> (w.cell.slot
            is Some <==> w.cell.phase is Initialized),
{
}

/// A cell is being initialised exactly while one write, and no more than
/// one, is inside its critical section.
pub proof fn law_one_writer_at_a_time<V>(w: World<V>, a: int, b: int)
    requires
        sound(w),
    ensures
        w.cell.phase is Initializing <==> exists|i: int|
            0 <= i < w.ops.len() && (#[trigger] w.ops[i]).owns(),
        0 <= a < w.ops.len() && 0 <= b < w.ops.len() && w.ops[a].owns() && w.ops[b].owns() ==> a
            == b,
{
    if exists|i: int| 0 <= i < w.ops.len() && (#[trigger] w.ops[i]).owns() {
        let i = choose|i: int| 0 <= i < w.ops.len() && (#[trigger] w.ops[i]).owns();
        assert(fits(w.cell, w.ops[i]));
    }
    if 0 <= a < w.ops.len() && 0 <= b < w.ops.len() && w.ops[a].owns() && w.ops[b].owns() {
        assert(w.ops[a].won() && w.ops[b].won());
    }
}

/// The phase of a cell never goes back and never skips: a step leaves it
/// where it is or moves it to the next phase.
pub proof fn law_phase_moves_one_forward<V>(w: World<V>, i: int)
    requires
        sound(w),
    ensures
        step(w, i).cell.phase.rank() == w.cell.phase.rank() || step(w, i).cell.phase.rank()
            == w.cell.phase.rank() + 1,
{
    if 0 <= i < w.ops.len() {
        assert(fits(w.cell, w.ops[i]));
    }
}

/// Over any schedule the phase only advances; a published cell stays
/// published.
pub proof fn law_phase_never_goes_back<V>(w: World<V>, schedule: Seq<int>)
    requires
        sound(w),
    ensures
        run(w, schedule).cell.phase.rank() >= w.cell.phase.rank(),
        w.cell.phase is Initialized ==> run(w, schedule).cell.phase is Initialized,
    decreases schedule.len(),
{
    if schedule.len() > 0 {
        law_phase_never_goes_back(w, schedule.drop_last());
        lemma_run_sound(w, schedule.drop_last());
        law_phase_moves_one_forward(run(w, schedule.drop_last()), schedule.last());
    }
}

/// The slot is written at most once: a value that is in the slot stays
/// there over any schedule.
pub proof fn law_slot_is_written_once<V>(w: World<V>, schedule: Seq<int>, x: V)
    requires
        w.cell.slot == Some(x),
    ensures
        run(w, schedule).cell.slot == Some(x),
    decreases schedule.len(),
{
    if schedule.len() > 0 {
        law_slot_is_written_once(w, schedule.drop_last(), x);
    }
}

/// A read of a cell in its first phase fails with `DataUninitialized`, and a
/// state query on it answers `UNINITIALIZED`; both return on their first
/// step and leave the cell as it is.
pub proof fn law_untouched_cell_reads_as_empty<V>(w: World<V>, i: int)
    requires
        0 <= i < w.ops.len(),
        w.cell.phase is Uninitialized,
        w.ops[i].stage is Start,
    ensures
        w.ops[i].call is Get ==> step(w, i).ops[i].stage == Stage::<V>::Done(
            Reply::Got(Err(OnceInitError::DataUninitialized)),
        ),
        w.ops[i].call is State ==> step(w, i).ops[i].stage == Stage::<V>::Done(
            Reply::Told(OnceInitState::UNINITIALIZED),
        ),
        !(w.ops[i].call is Init) ==> step(w, i).cell == w.cell,
{
}

/// Nothing changes a published cell: over any schedule it keeps its phase
/// and its value.
pub proof fn law_published_cell_is_stable<V>(w: World<V>, schedule: Seq<int>)
    requires
        sound(w),
        w.cell.phase is Initialized,
    ensures
        run(w, schedule).cell == w.cell,
    decreases schedule.len(),
{
    if schedule.len() > 0 {
        let before = run(w, schedule.drop_last());
        let i = schedule.last();
        law_published_cell_is_stable(w, schedule.drop_last());
        lemma_run_sound(w, schedule.drop_last());
        if 0 <= i < before.ops.len() {
            assert(fits(before.cell, before.ops[i]));
        }
    }
}

/// Every read that begins on a published cell can only return the value in
/// it, whatever else runs beside the read and however often it is repeated;
/// run on its own, the read returns after two steps.
pub proof fn law_published_value_is_read<V>(w: World<V>, schedule: Seq<int>, x: V, i: int)
    requires
        sound(w),
        w.cell == (Shared { phase: Phase::Initialized, slot: Some(x) }),
        0 <= i < w.ops.len(),
        w.ops[i].call is Get,
        w.ops[i].stage is Start,
    ensures
        run(w, schedule).cell == w.cell,
        run(w, schedule).ops[i].stage is Start || run(w, schedule).ops[i].stage is Fetch || run(
            w,
            schedule,
        ).ops[i].stage == Stage::<V>::Done(Reply::Got(Ok(x))),
        step(step(w, i), i).ops[i].stage == Stage::<V>::Done(Reply::Got(Ok(x))),
    decreases schedule.len(),
{
    law_published_cell_is_stable(w, schedule);
    if schedule.len() > 0 {
        law_published_value_is_read(w, schedule.drop_last(), x, i);
        law_published_cell_is_stable(w, schedule.drop_last());
        lemma_run_frame(w, schedule.drop_last());
    }
}

/// After a write of `x` has succeeded, every read that begins from then on
/// can only return `Ok(x)`, whatever else runs beside it and however often
/// it is repeated.
pub proof fn law_stored_value_is_read<V>(w: World<V>, schedule: Seq<int>, j: int, x: V, i: int)
    requires
        sound(w),
        0 <= j < w.ops.len(),
        w.ops[j].call == Call::Init(x),
        w.ops[j].stage == Stage::<V>::Done(Reply::Stored(Ok(()))),
        0 <= i < w.ops.len(),
        w.ops[i].call is Get,
        w.ops[i].stage is Start,
    ensures
        run(w, schedule).cell == (Shared { phase: Phase::Initialized, slot: Some(x) }),
        run(w, schedule).ops[i].stage is Start || run(w, schedule).ops[i].stage is Fetch || run(
            w,
            schedule,
        ).ops[i].stage == Stage::<V>::Done(Reply::Got(Ok(x))),
        step(step(w, i), i).ops[i].stage == Stage::<V>::Done(Reply::Got(Ok(x))),
{
    assert(fits(w.cell, w.ops[j]));
    law_published_value_is_read(w, schedule, x, i);
}

/// A write that finds the cell untouched claims it on its first step, fills
/// the slot with its value on the second and publishes on the third; it
/// reports success, and the cell then holds that value.
pub proof fn law_first_writer_stores_its_value<V>(w: World<V>, i: int, x: V)
    requires
        sound(w),
        0 <= i < w.ops.len(),
        w.ops[i] == (Op { call: Call::Init(x), stage: Stage::Start }),
        w.cell.phase is Uninitialized,
    ensures
        step(w, i).cell == (Shared::<V> { phase: Phase::Initializing, slot: None }),
        step(w, i).ops[i].stage is Fill,
        step(step(w, i), i).cell == (Shared { phase: Phase::Initializing, slot: Some(x) }),
        step(step(step(w, i), i), i).cell == (Shared { phase: Phase::Initialized, slot: Some(x) }),
        step(step(step(w, i), i), i).succeeded(i),
{
}

/// A write that finds the cell published is refused on its first step; one
/// that finds it being initialised waits, and however its wait ends it is
/// refused with `DataInitialized`. Neither touches the cell.
pub proof fn law_late_writer_is_refused<V>(w: World<V>, i: int)
    requires
        0 <= i < w.ops.len(),
        w.ops[i].call is Init,
    ensures
        w.ops[i].stage is Start && w.cell.phase is Initialized ==> step(w, i).ops[i].stage
            == Stage::<V>::Done(Reply::Stored(Err(OnceInitError::DataInitialized))),
        w.ops[i].stage is Start && w.cell.phase is Initializing ==> step(w, i).ops[i].stage is Wait,
        w.ops[i].stage is Wait ==> step(w, i).ops[i].stage is Wait || step(w, i).ops[i].stage
            == Stage::<V>::Done(Reply::Stored(Err(OnceInitError::DataInitialized))),
        (w.ops[i].stage is Start && !(w.cell.phase is Uninitialized)) || w.ops[i].stage is Wait
            ==> step(w, i).cell == w.cell,
{
}

/// A read that looks at a cell being initialised does not return: it waits,
/// and keeps waiting while the writer has not published and re-reads are
/// left.
pub proof fn law_reader_waits_for_writer<V>(w: World<V>, i: int)
    requires
        0 <= i < w.ops.len(),
        w.ops[i].call is Get,
        w.cell.phase is Initializing,
        w.ops[i].stage is Start || (w.ops[i].stage matches Stage::Wait(left) && left > 0),
    ensures
        step(w, i).ops[i].stage is Wait,
        step(w, i).cell == w.cell,
{
}

/// A read that waits moves on as soon as it finds the cell published, and
/// then returns the value in the slot.
pub proof fn law_waiting_reader_gets_published_value<V>(w: World<V>, i: int, x: V)
    requires
        0 <= i < w.ops.len(),
        w.ops[i].call is Get,
        w.ops[i].stage matches Stage::Wait(left) && left > 0,
        w.cell == (Shared { phase: Phase::Initialized, slot: Some(x) }),
    ensures
        step(w, i).ops[i].stage is Fetch,
        step(step(w, i), i).ops[i].stage == Stage::<V>::Done(Reply::Got(Ok(x))),
        step(step(w, i), i).cell == w.cell,
{
}

/// The write that has succeeded has stored its own value: the cell is
/// published and holds what that write was called with.
pub proof fn law_winner_value_is_stored<V>(w: World<V>, j: int, x: V)
    requires
        sound(w),
        w.succeeded(j),
        w.ops[j].call == Call::Init(x),
    ensures
        w.cell == (Shared { phase: Phase::Initialized, slot: Some(x) }),
{
    assert(fits(w.cell, w.ops[j]));
}

/// A read never returns a value before it is published, and never a value
/// other than the one in the slot: when it has returned `Ok(x)`, the cell is
/// published, holds `x`, and no writer is inside its critical section. Its
/// only error is `DataUninitialized`.
pub proof fn law_read_returns_published_value<V>(w: World<V>, i: int)
    requires
        sound(w),
        0 <= i < w.ops.len(),
        w.ops[i].call is Get,
        w.ops[i].done(),
    ensures
        w.ops[i].stage matches Stage::Done(Reply::Got(got)) && match got {
            Ok(x) => w.cell == (Shared { phase: Phase::Initialized, slot: Some(x) }) && forall|
                k: int,
            | 0 <= k < w.ops.len() ==> !(#[trigger] w.ops[k]).owns(),
            Err(e) => e == OnceInitError::DataUninitialized,
        },
{
    assert(fits(w.cell, w.ops[i]));
    assert forall|k: int| 0 <= k < w.ops.len() && (#[trigger] w.ops[k]).owns() implies !(w.cell.phase
        is Initialized) by {
        assert(fits(w.cell, w.ops[k]));
    }
}

/// A fresh world is one that grew out of a fresh world.
pub proof fn lemma_fresh_is_raced<V>(w: World<V>)
    requires
        fresh(w),
    ensures
        raced(w),
{
}

/// Every step keeps a world that grew out of a fresh one such a world.
pub proof fn lemma_step_raced<V>(w: World<V>, i: int)
    requires
        raced(w),
    ensures
        raced(step(w, i)),
{
    let after = step(w, i);
    lemma_step_sound(w, i);
    if 0 <= i < w.ops.len() {
        assert(fits(w.cell, w.ops[i]));
        if !(w.cell.phase is Uninitialized) {
            let j = choose|j: int| 0 <= j < w.ops.len() && (#[trigger] w.ops[j]).won();
            assert(fits(w.cell, w.ops[j]));
            if j == i {
                if let Stage::Publish(reply) = w.ops[j].stage {
                    assert(reply is Ok);
                    assert(reply->Ok_0 == ());
                }
            }
            assert(after.ops[j].won());
        } else if !(after.cell.phase is Uninitialized) {
            assert(after.ops[i].won());
        }
        assert forall|k: int|
            0 <= k < after.ops.len() && (#[trigger] after.ops[k]).call is Init && !(after.ops[k].stage
                is Start) implies !(after.cell.phase is Uninitialized) by {
            if k != i {
                assert(w.ops[k].call is Init && !(w.ops[k].stage is Start));
            }
        }
    }
}

/// Whatever the schedule, a world that starts fresh is at its end one that
/// grew out of a fresh one.
pub proof fn lemma_run_raced<V>(w: World<V>, schedule: Seq<int>)
    requires
        fresh(w),
    ensures
        raced(run(w, schedule)),
    decreases schedule.len(),
{
    if schedule.len() == 0 {
        lemma_fresh_is_raced(w);
    } else {
        lemma_run_raced(w, schedule.drop_last());
        lemma_step_raced(run(w, schedule.drop_last()), schedule.last());
    }
}

/// Any number of writes racing on a fresh cell, in any interleaving with
/// each other and with reads: at most one write succeeds; every other write
/// that has returned was refused with `DataInitialized`; once all writes have
/// returned, and there was one, exactly one has succeeded; and every read
/// that has returned a value has returned the value of the write that
/// succeeded.
pub proof fn law_one_writer_wins<V>(w: World<V>, schedule: Seq<int>)
    requires
        fresh(w),
    ensures
        ({
            let end = run(w, schedule);
            &&& end.ops.len() == w.ops.len()
            &&& forall|k: int| 0 <= k < end.ops.len() ==> (#[trigger] end.ops[k]).call == w.ops[k].call
            &&& forall|a: int, b: int| #[trigger] end.succeeded(a) && #[trigger] end.succeeded(b) ==> a == b
            &&& forall|k: int|
                0 <= k < end.ops.len() && (#[trigger] end.ops[k]).call is Init && end.ops[k].done()
                    && !end.succeeded(k) ==> end.ops[k].stage == Stage::<V>::Done(
                    Reply::Stored(Err(OnceInitError::DataInitialized)),
                )
            &&& (exists|k: int| 0 <= k < end.ops.len() && (#[trigger] end.ops[k]).call is Init) && (
            forall|k: int|
                0 <= k < end.ops.len() && (#[trigger] end.ops[k]).call is Init
                    ==> end.ops[k].done()) ==> exists|j: int| #[trigger] end.succeeded(j)
            &&& forall|g: int, x: V| #[trigger]
                end.has_read(g, x) ==> exists|j: int| #[trigger]
                    end.succeeded(j) && end.ops[j].call == Call::Init(x)
        }),
{
    let end = run(w, schedule);
    lemma_run_raced(w, schedule);
    lemma_run_frame(w, schedule);
    assert forall|a: int, b: int| #[trigger] end.succeeded(a) && #[trigger] end.succeeded(b) implies a == b by {
        assert(end.ops[a].won() && end.ops[b].won());
    }
    assert forall|k: int|
        0 <= k < end.ops.len() && (#[trigger] end.ops[k]).call is Init && end.ops[k].done()
            && !end.succeeded(k) implies end.ops[k].stage == Stage::<V>::Done(
        Reply::Stored(Err(OnceInitError::DataInitialized)),
    ) by {
        assert(fits(end.cell, end.ops[k]));
        if let Stage::Done(Reply::Stored(Ok(unit))) = end.ops[k].stage {
            assert(unit == ());
        }
    }
    if (exists|k: int| 0 <= k < end.ops.len() && (#[trigger] end.ops[k]).call is Init) && (forall|
        k: int,
    | 0 <= k < end.ops.len() && (#[trigger] end.ops[k]).call is Init ==> end.ops[k].done()) {
        let k = choose|k: int| 0 <= k < end.ops.len() && (#[trigger] end.ops[k]).call is Init;
        assert(end.ops[k].done());
        assert(!(end.cell.phase is Uninitialized));
        let j = choose|j: int| 0 <= j < end.ops.len() && (#[trigger] end.ops[j]).won();
        assert(fits(end.cell, end.ops[j]));
        assert(end.ops[j].call is Init);
        assert(end.ops[j].done());
        assert(end.succeeded(j));
    }
    assert forall|g: int, x: V| #[trigger] end.has_read(g, x) implies exists|j: int| #[trigger]
        end.succeeded(j) && end.ops[j].call == Call::Init(x) by {
        assert(fits(end.cell, end.ops[g]));
        let j = choose|j: int| 0 <= j < end.ops.len() && (#[trigger] end.ops[j]).won();
        assert(fits(end.cell, end.ops[j]));
        assert(end.succeeded(j) && end.ops[j].call == Call::Init(x));
    }
}

/// In a running world every operation is where its own steps, taken on the
/// cells it met, have brought it: the world only decides which cells those
/// are.
pub proof fn law_world_runs_each_operation<V>(w: World<V>, schedule: Seq<int>, i: int)
    requires
        0 <= i < w.ops.len(),
        w.ops[i].stage is Start,
    ensures
        run(w, schedule).ops[i].stage == reached(w.ops[i].call, met(w, schedule, i)),
    decreases schedule.len(),
{
    if schedule.len() > 0 {
        let before = run(w, schedule.drop_last());
        law_world_runs_each_operation(w, schedule.drop_last(), i);
        lemma_run_frame(w, schedule.drop_last());
        if schedule.last() == i {
            lemma_reached_push(w.ops[i].call, met(w, schedule.drop_last(), i), before.cell);
        }
    }
}

/// Every cell that an operation meets in a world whose cell started out
/// with a value still holds that value.
pub proof fn law_met_cells_keep_first_value<V>(w: World<V>, schedule: Seq<int>, i: int, d: V)
    requires
        w.cell.slot == Some(d),
    ensures
        forall|k: int|
            0 <= k < met(w, schedule, i).len() ==> (#[trigger] met(w, schedule, i)[k]).slot
                == Some(d),
    decreases schedule.len(),
{
    if schedule.len() > 0 {
        law_met_cells_keep_first_value(w, schedule.drop_last(), i, d);
        law_slot_is_written_once(w, schedule.drop_last(), d);
    }
}

/// A state query answers `INITIALIZED` only for a cell that is published
/// and full.
pub proof fn law_state_reports_published<V>(w: World<V>, i: int)
    requires
        sound(w),
        0 <= i < w.ops.len(),
        w.ops[i].stage == Stage::<V>::Done(Reply::Told(OnceInitState::INITIALIZED)),
    ensures
        w.cell.phase is Initialized,
        w.cell.slot is Some,
{
    assert(fits(w.cell, w.ops[i]));
}

/// A cell that was built holding `d` never changes, whatever runs on it:
/// every read returns `Ok(d)`, every state query answers `INITIALIZED`, and
/// every write is refused with `DataInitialized`.
pub proof fn law_prebuilt_cell_serves_its_value<V>(w: World<V>, schedule: Seq<int>, d: V)
    requires
        prebuilt(w, d),
    ensures
        run(w, schedule).cell == w.cell,
        run(w, schedule).ops.len() == w.ops.len(),
        forall|i: int| 0 <= i < w.ops.len() ==> served(#[trigger] run(w, schedule).ops[i], d),
    decreases schedule.len(),
{
    if schedule.len() > 0 {
        let before = run(w, schedule.drop_last());
        let end = run(w, schedule);
        law_prebuilt_cell_serves_its_value(w, schedule.drop_last(), d);
        let i = schedule.last();
        if 0 <= i < before.ops.len() {
            assert(served(before.ops[i], d));
        }
        assert forall|k: int| 0 <= k < w.ops.len() implies served(#[trigger] end.ops[k], d) by {
            assert(served(before.ops[k], d));
        }
    }
}

/// A read with fallback that finds a value returns that value: once a write
/// has succeeded, the fallback is out of the picture.
pub proof fn law_value_replaces_fallback<T: ?Sized + StaticDefault>(v: &'static T, r: &'static T)
    requires
        call_ensures(or_default::<T>, (Ok::<&'static T, OnceInitError>(v),), r),
    ensures
        r == v,
{
}

/// A read with fallback that finds nothing hands out the payload type's
/// fallback, and does so again on every repetition: where the fallback is one
/// fixed value, any two such reads return the same.
pub proof fn law_fallback_reads_agree<T: ?Sized + StaticDefault>(
    e1: OnceInitError,
    e2: OnceInitError,
    r1: &'static T,
    r2: &'static T,
)
    requires
        forall|a: &'static T, b: &'static T|
            call_ensures(T::static_default, (), a) && call_ensures(T::static_default, (), b) ==> a
                == b,
        call_ensures(or_default::<T>, (Err::<&'static T, OnceInitError>(e1),), r1),
        call_ensures(or_default::<T>, (Err::<&'static T, OnceInitError>(e2),), r2),
    ensures
        call_ensures(T::static_default, (), r1),
        r1 == r2,
{
}

/// Wherever an operation stands after stepping on cells that obey the rule
/// of a cell built with the slot `preset`, it is on track.
pub proof fn lemma_reached_on_track<V>(call: Call<V>, seen: Seq<Shared<V>>, preset: Option<V>)
    requires
        forall|k: int|
            0 <= k < seen.len() ==> (preset matches Some(d) ==> (#[trigger] seen[k]).slot == Some(
                d,
            )),
    ensures
        on_track(call, reached(call, seen), preset),
    decreases seen.len(),
{
    if seen.len() > 0 {
        let before = seen.drop_last();
        assert forall|k: int| 0 <= k < before.len() implies (preset matches Some(d)
            ==> (#[trigger] before[k]).slot == Some(d)) by {
            assert(before[k] == seen[k]);
        }
        lemma_reached_on_track(call, before, preset);
        assert(preset matches Some(d) ==> seen.last().slot == Some(d));
    }
}

/// An operation that has only stepped on a published cell holding `d` is
/// where such a cell lets it be.
pub proof fn lemma_reached_served<V>(call: Call<V>, seen: Seq<Shared<V>>, d: V)
    requires
        forall|k: int|
            0 <= k < seen.len() ==> #[trigger] seen[k] == (Shared {
                phase: Phase::Initialized,
                slot: Some(d),
            }),
    ensures
        served(Op { call, stage: reached(call, seen) }, d),
    decreases seen.len(),
{
    if seen.len() > 0 {
        let before = seen.drop_last();
        assert forall|k: int| 0 <= k < before.len() implies #[trigger] before[k] == (Shared {
            phase: Phase::Initialized,
            slot: Some(d),
        }) by {
            assert(before[k] == seen[k]);
        }
        lemma_reached_served(call, before, d);
        assert(seen.last() == seen[seen.len() - 1]);
    }
}

/// What it means that a reply is an answer of a call on a cell: the reply
/// is of the call's kind; a read answers with a value that the cell allows
/// or with `DataUninitialized`; a write answers with success only on a cell
/// that was built empty, or with `DataInitialized`. On a cell that was built
/// around a value there is one answer to each call: that value to a read,
/// `INITIALIZED` to a state query, `DataInitialized` to a write.
pub proof fn law_answers_fit_the_call<T: ?Sized>(
    cell: &OnceInit<T>,
    call: Call<&'static T>,
    reply: Reply<&'static T>,
)
    requires
        cell.answers(call, reply),
    ensures
        match reply {
            Reply::Got(got) => call is Get && match got {
                Ok(v) => cell.allows(v),
                Err(e) => e == OnceInitError::DataUninitialized,
            },
            Reply::Told(_) => call is State,
            Reply::Stored(stored) => call is Init && match stored {
                Ok(_) => cell.preset() is None,
                Err(e) => e == OnceInitError::DataInitialized,
            },
        },
        cell.preset() matches Some(d) ==> reply == match call {
            Call::Get => Reply::Got(Ok(d)),
            Call::State => Reply::Told(OnceInitState::INITIALIZED),
            Call::Init(_) => Reply::Stored(Err(OnceInitError::DataInitialized)),
        },
{
    let seen = choose|seen: Seq<Shared<&'static T>>|
        cell.can_show(seen) && #[trigger] reached(call, seen) == Stage::Done(reply);
    lemma_reached_on_track(call, seen, cell.preset());
    if let Some(d) = cell.preset() {
        lemma_reached_served(call, seen, d);
    }
}

/// A read and a state query write nothing: whatever step they take, the
/// cell is afterwards as it was.
pub proof fn law_reads_write_nothing<V>(w: World<V>, i: int)
    requires
        0 <= i < w.ops.len(),
        !(w.ops[i].call is Init),
    ensures
        step(w, i).cell == w.cell,
{
}

/// Reads do not use up the one write. However many reads and state queries
/// run on an untouched cell, in any order and as far as they get, the cell
/// stays untouched; the write that begins afterwards claims the cell,
/// stores its value and succeeds.
pub proof fn law_write_after_reads_succeeds<V>(w: World<V>, schedule: Seq<int>, i: int, x: V)
    requires
        sound(w),
        w.cell == (Shared::<V> { phase: Phase::Uninitialized, slot: None }),
        forall|k: int|
            0 <= k < schedule.len() && 0 <= #[trigger] schedule[k] < w.ops.len() ==> !(
            w.ops[schedule[k]].call is Init),
        0 <= i < w.ops.len(),
        w.ops[i] == (Op { call: Call::Init(x), stage: Stage::Start }),
    ensures
        sound(run(w, schedule)),
        run(w, schedule).cell == w.cell,
        run(w, schedule).ops[i] == w.ops[i],
        step(step(step(run(w, schedule), i), i), i).succeeded(i),
        step(step(step(run(w, schedule), i), i), i).cell == (Shared {
            phase: Phase::Initialized,
            slot: Some(x),
        }),
    decreases schedule.len(),
{
    lemma_run_sound(w, schedule);
    lemma_run_frame(w, schedule);
    if schedule.len() > 0 {
        let shorter = schedule.drop_last();
        assert forall|k: int|
            0 <= k < shorter.len() && 0 <= #[trigger] shorter[k] < w.ops.len() implies !(
        w.ops[shorter[k]].call is Init) by {
            assert(shorter[k] == schedule[k]);
        }
        law_write_after_reads_succeeds(w, shorter, i, x);
        lemma_run_frame(w, shorter);
        let last = schedule.last();
        assert(last == schedule[schedule.len() - 1]);
        if 0 <= last < w.ops.len() {
            law_reads_write_nothing(run(w, shorter), last);
        }
    }
    law_first_writer_stores_its_value(run(w, schedule), i, x);
}

/// Every operation in a world has a reason for what it has returned, and a
/// waiting operation has as many re-reads left as it has not yet made.
pub proof fn lemma_run_excused<V>(w: World<V>, schedule: Seq<int>, i: int)
    requires
        sound(w),
        0 <= i < w.ops.len(),
        w.ops[i].stage is Start,
    ensures
        excused(run(w, schedule).ops[i], run(w, schedule).cell, met(w, schedule, i)),
        run(w, schedule).ops[i].stage is Start <==> met(w, schedule, i).len() == 0,
    decreases schedule.len(),
{
    if schedule.len() > 0 {
        let before = run(w, schedule.drop_last());
        let seen = met(w, schedule.drop_last(), i);
        let last = schedule.last();
        lemma_run_excused(w, schedule.drop_last(), i);
        lemma_run_sound(w, schedule.drop_last());
        lemma_run_frame(w, schedule.drop_last());
        assert(fits(before.cell, before.ops[i]));
        if last == i {
            assert(met(w, schedule, i) == seen.push(before.cell));
            if seen.len() > 0 {
                assert(seen.push(before.cell)[0] == seen[0]);
            }
            if let Stage::Publish(reply) = before.ops[i].stage {
                assert(reply is Ok);
            }
        } else {
            law_phase_moves_one_forward(before, last);
        }
    }
}

/// An operation that has not run out of re-reads returns an error only for
/// the reason that the protocol gives: a read fails, and a state query
/// answers `UNINITIALIZED`, only if its first look found the cell
/// untouched, before any writer had claimed it; a write is refused only
/// once the cell is published.
pub proof fn law_patient_operation_has_its_reason<V>(w: World<V>, schedule: Seq<int>, i: int)
    requires
        sound(w),
        0 <= i < w.ops.len(),
        w.ops[i].stage is Start,
        met(w, schedule, i).len() <= SPIN_LIMIT,
    ensures
        run(w, schedule).ops[i].stage matches Stage::Done(Reply::Got(Err(e))) ==> e
            == OnceInitError::DataUninitialized && met(w, schedule, i).len() >= 1 && met(
            w,
            schedule,
            i,
        )[0].phase is Uninitialized,
        run(w, schedule).ops[i].stage == Stage::<V>::Done(Reply::Told(OnceInitState::UNINITIALIZED))
            ==> met(w, schedule, i).len() >= 1 && met(w, schedule, i)[0].phase is Uninitialized,
        run(w, schedule).ops[i].stage matches Stage::Done(Reply::Stored(Err(e))) ==> e
            == OnceInitError::DataInitialized && run(w, schedule).cell.phase is Initialized,
{
    lemma_run_excused(w, schedule, i);
    lemma_run_sound(w, schedule);
    lemma_run_frame(w, schedule);
    assert(fits(run(w, schedule).cell, run(w, schedule).ops[i]));
}

/// A read whose first look finds a writer at work, and which has not run out
/// of re-reads, returns only once the writer has published, and returns the
/// value that is then in the cell.
pub proof fn law_patient_reader_gets_the_writers_value<V>(w: World<V>, schedule: Seq<int>, i: int)
    requires
        sound(w),
        0 <= i < w.ops.len(),
        w.ops[i].call is Get,
        w.ops[i].stage is Start,
        1 <= met(w, schedule, i).len() <= SPIN_LIMIT,
        met(w, schedule, i)[0].phase is Initializing,
        run(w, schedule).ops[i].done(),
    ensures
        run(w, schedule).cell.phase is Initialized,
        run(w, schedule).cell.slot matches Some(x) && run(w, schedule).ops[i].stage
            == Stage::<V>::Done(Reply::Got(Ok(x))),
{
    law_patient_operation_has_its_reason(w, schedule, i);
    lemma_run_sound(w, schedule);
    lemma_run_frame(w, schedule);
    law_read_returns_published_value(run(w, schedule), i);
}

/// After a write on a fresh cell has returned, with success or refused, and
/// without having run out of re-reads, every read that begins from then on
/// can only return the value of the one write that succeeded: not the value
/// of a refused write, and no error.
pub proof fn law_read_after_returned_write<V>(
    w: World<V>,
    first: Seq<int>,
    then: Seq<int>,
    j: int,
    i: int,
)
    requires
        fresh(w),
        0 <= j < w.ops.len(),
        w.ops[j].call is Init,
        run(w, first).ops[j].done(),
        met(w, first, j).len() <= SPIN_LIMIT,
        0 <= i < w.ops.len(),
        w.ops[i].call is Get,
        run(w, first).ops[i].stage is Start,
    ensures
        exists|k: int|
            {
                &&& #[trigger] run(w, first).succeeded(k)
                &&& w.ops[k].call matches Call::Init(x)
                &&& run(run(w, first), then).cell == (Shared {
                    phase: Phase::Initialized,
                    slot: Some(x),
                })
                &&& (run(run(w, first), then).ops[i].stage is Start || run(
                    run(w, first),
                    then,
                ).ops[i].stage is Fetch || run(run(w, first), then).ops[i].stage
                    == Stage::<V>::Done(Reply::Got(Ok(x))))
            },
{
    let mid = run(w, first);
    lemma_run_raced(w, first);
    lemma_run_frame(w, first);
    lemma_fresh_is_raced(w);
    law_patient_operation_has_its_reason(w, first, j);
    assert(fits(mid.cell, mid.ops[j]));
    assert(mid.cell.phase is Initialized);
    let k = choose|k: int| 0 <= k < mid.ops.len() && (#[trigger] mid.ops[k]).won();
    assert(fits(mid.cell, mid.ops[k]));
    assert(mid.succeeded(k));
    let x = mid.cell.slot->0;
    assert(mid.ops[k].call == Call::Init(x));
    law_published_value_is_read(mid, then, x, i);
    assert(run(w, first).succeeded(k) && w.ops[k].call == Call::Init(x));
}

} // verus!
