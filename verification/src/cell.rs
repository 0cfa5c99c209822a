//! The cell: a tag that is moved by atomic operations, and a slot for the
//! reference.

use vstd::prelude::*;
use vstd::pervasive::unreached;
use vstd::rwlock::RwLock;
use vstd::rwlock::RwLockPredicate;
use std::sync::atomic::AtomicUsize;
use std::sync::atomic::Ordering;
use crate::error::OnceInitError;
use crate::model::advance;
use crate::model::after_exchange;
use crate::model::after_look;
use crate::model::after_wait;
use crate::model::Call;
use crate::model::Op;
use crate::model::lemma_reached_push;
use crate::model::lemma_wait_out;
use crate::model::reached;
use crate::model::Reply;
use crate::model::Shared;
use crate::model::Stage;
use crate::model::waited;
use crate::phase::claim;
use crate::phase::Claim;
use crate::phase::fill_reply;
use crate::phase::OnceInitState;
use crate::phase::Phase;
use crate::phase::phase_of;
use crate::phase::read;
use crate::phase::report;
use crate::phase::slot_after_fill;
use crate::phase::SPIN_LIMIT;

verus! {

/// `core::hint::spin_loop` tells the processor that the caller is busy-waiting.
/// It takes and returns nothing, so nothing is claimed of it.
pub assume_specification[ core::hint::spin_loop ]();

/// `Box::leak` gives up the box and hands back a reference to what was in it,
/// valid for as long as the process runs. The contract says only that the
/// reference points to the boxed value.
#[verifier::external_body]
fn leak<T: ?Sized>(data: Box<T>) -> (kept: &'static T)
    ensures
        kept == &*data,
{
    Box::leak(data)
}

/// The rule that the slot of a cell obeys at all times, fixed by what the
/// cell held when it was built: a slot that was full then never holds
/// anything else.
struct SlotRule<T: ?Sized + 'static> {
    born: Shared<&'static T>,
}

impl<T: ?Sized> RwLockPredicate<Option<&'static T>> for SlotRule<T> {
    closed spec fn inv(self, v: Option<&'static T>) -> bool {
        self.born.slot matches Some(d) ==> v == Some(d)
    }
}

/// Offers the value that `make` produces to a slot that holds `held`.
/// An empty slot takes the value and the offer succeeds; a full slot keeps
/// what it has, `make` is not called, and the offer is refused.
pub fn offer<V, F>(held: Option<V>, make: F) -> (r: (Option<V>, Result<(), OnceInitError>))
    where
        F: FnOnce() -> V,
    requires
        make.requires(()),
    ensures
        r.1 == fill_reply(held),
        r.0 is Some,
        r.0 == slot_after_fill(held, r.0->0),
        held is None ==> make.ensures((), r.0->0),
{
    match held {
        Some(v) => (Some(v), Err(OnceInitError::DataInitialized)),
        None => (Some(make()), Ok(())),
    }
}

/// Waits out a cell that is being initialised: while the phase found is
/// `Initializing`, looks again, at most `limit` times. Returns the last
/// phase found and the number of looks it took.
///
/// A phase other than `Initializing` ends the wait at once. The wait gives up
/// only when all `limit` looks have found the writer still at work.
pub fn wait_out<F>(first: Phase, look: F, limit: u64) -> (r: (Phase, u64))
    where
        F: Fn() -> Phase,
    requires
        look.requires(()),
    ensures
        !(first is Initializing) ==> r == (first, 0u64),
        r.1 <= limit,
        r.1 == 0 ==> r.0 == first,
        r.1 >= 1 ==> first is Initializing && look.ensures((), r.0),
        r.0 is Initializing ==> first is Initializing && r.1 == limit,
{
    let mut last = first;
    let mut looks: u64 = 0;
    while last == Phase::Initializing && looks < limit
        invariant
            look.requires(()),
            looks <= limit,
            !(first is Initializing) ==> last == first && looks == 0,
            looks == 0 ==> last == first,
            looks >= 1 ==> first is Initializing && look.ensures((), last),
        decreases limit - looks,
    {
        core::hint::spin_loop();
        last = look();
        looks = looks + 1;
    }
    (last, looks)
}

/// A cell that is written at most once and read any number of times.
///
/// The tag in `state` moves from `UNINITIALIZED` over `INITIALIZING` to
/// `INITIALIZED`; the one writer whose exchange moves it off `UNINITIALIZED`
/// fills `data` and then publishes. Every method touches the cell in the
/// steps that `advance` lays down for its call, and hands back what the
/// operation has as its reply when it is done.
///
/// `built` keeps what the cell was built around. It is never written again,
/// so a cell that was built published is known to be published without a
/// look at the tag.
#[verifier::reject_recursive_types(T)]
pub struct OnceInit<T: ?Sized + 'static> {
    state: AtomicUsize,
    data: RwLock<Option<&'static T>, SlotRule<T>>,
    built: Option<&'static T>,
}

impl<T: ?Sized> OnceInit<T> {
    /// A cell is built untouched and empty, or published and full, and
    /// `built` is the slot it was built with.
    #[verifier::type_invariant]
    closed spec fn well_built(&self) -> bool {
        &&& self.built == self.data.pred().born.slot
        &&& match self.data.pred().born.phase {
            Phase::Uninitialized => self.data.pred().born.slot is None,
            Phase::Initializing => false,
            Phase::Initialized => self.data.pred().born.slot is Some,
        }
    }

    /// The phase and the slot that the cell was built with.
    pub closed spec fn born(&self) -> Shared<&'static T> {
        self.data.pred().born
    }

    /// The value that the cell was built around, if it was built initialised.
    pub open spec fn preset(&self) -> Option<&'static T> {
        self.born().slot
    }

    /// Whether `v` can ever be read from this cell, as far as its
    /// construction decides it.
    pub open spec fn allows(&self, v: &'static T) -> bool {
        self.preset() matches Some(d) ==> v == d
    }

    /// Whether the cell can be found in each of the states in `seen`: a cell
    /// that was built around a value is only ever found published and
    /// holding that value.
    pub open spec fn can_show(&self, seen: Seq<Shared<&'static T>>) -> bool {
        forall|k: int|
            0 <= k < seen.len() ==> (self.preset() matches Some(d) ==> #[trigger] seen[k] == (
            Shared { phase: Phase::Initialized, slot: Some(d) }))
    }

    /// Whether `reply` is an answer of `call` on this cell: the operation
    /// returns it after it has stepped on states that the cell can be found
    /// in.
    pub open spec fn answers(&self, call: Call<&'static T>, reply: Reply<&'static T>) -> bool {
        exists|seen: Seq<Shared<&'static T>>|
            self.can_show(seen) && #[trigger] reached(call, seen) == Stage::Done(reply)
    }

    /// A cell in phase `phase` whose slot holds `slot`.
    fn build(phase: Phase, slot: Option<&'static T>) -> (cell: Self)
        requires
            phase is Uninitialized && slot is None || phase is Initialized && slot is Some,
        ensures
            cell.born() == (Shared { phase, slot }),
    {
        OnceInit {
            state: AtomicUsize::new(phase.tag()),
            data: RwLock::new(slot, Ghost(SlotRule { born: Shared { phase, slot } })),
            built: slot,
        }
    }

    /// A cell that nobody has written to: untouched, with an empty slot.
    pub fn uninit() -> (cell: Self)
        ensures
            cell.born() == (Shared::<&'static T> { phase: Phase::Uninitialized, slot: None }),
    {
        Self::build(Phase::Uninitialized, None)
    }

    /// A cell that is published from the start and holds `data`.
    pub fn new(data: &'static T) -> (cell: Self)
        ensures
            cell.born() == (Shared { phase: Phase::Initialized, slot: Some(data) }),
    {
        Self::build(Phase::Initialized, Some(data))
    }

    /// The phase that the cell is found in. A cell that was built published
    /// stays so; for any other cell the tag tells. The first look of an
    /// operation only has to see what a publishing writer wrote before; a
    /// look `again`, while waiting, is ordered with all other steps.
    fn look(&self, again: bool) -> (found: Phase)
        ensures
            self.preset() is Some ==> found is Initialized,
    {
        proof {
            use_type_invariant(self);
        }
        match self.built {
            Some(_) => Phase::Initialized,
            None => if again {
                phase_of(self.state.load(Ordering::SeqCst))
            } else {
                phase_of(self.state.load(Ordering::Acquire))
            },
        }
    }

    /// The claiming exchange: moves the tag from `from` to `to` if it is
    /// `from`, and returns the phase that it found. `from` and `to` are the
    /// two phases between which the exchange of the protocol moves a cell.
    /// A cell that was built published is found published, and nothing is
    /// exchanged.
    fn exchange(&self, from: Phase, to: Phase) -> (prior: Phase)
        requires
            from != to,
            after_exchange(Shared::<&'static T> { phase: from, slot: None }).phase == to,
        ensures
            self.preset() is Some ==> prior is Initialized,
    {
        proof {
            use_type_invariant(self);
        }
        match self.built {
            Some(_) => Phase::Initialized,
            None => match self.state.compare_exchange(
                from.tag(),
                to.tag(),
                Ordering::SeqCst,
                Ordering::SeqCst,
            ) {
                Ok(tag) => phase_of(tag),
                Err(tag) => phase_of(tag),
            },
        }
    }

    /// Publishes: stores the tag of `to`, the phase that the step of
    /// `writer` leaves the cell `filled` in.
    fn publish(
        &self,
        to: Phase,
        Ghost(filled): Ghost<Shared<&'static T>>,
        Ghost(writer): Ghost<Op<&'static T>>,
    )
        requires
            writer.call is Init,
            writer.stage is Publish,
            advance(filled, writer).0.phase == to,
    {
        self.state.store(to.tag(), Ordering::SeqCst);
    }

    /// Copies the reference out of the slot.
    fn peek(&self) -> (slot: Option<&'static T>)
        ensures
            self.preset() matches Some(d) ==> slot == Some(d),
    {
        let handle = self.data.acquire_read();
        let slot = *handle.borrow();
        handle.release_read();
        slot
    }

    /// Waits while the tag says `Initializing`, re-reading it at most
    /// `SPIN_LIMIT` times, and returns the last phase seen. `seen` holds the
    /// states that the operation `call` has stepped on so far; the states
    /// that the waiting steps on are added to it.
    fn settle(
        &self,
        first: Phase,
        Ghost(call): Ghost<Call<&'static T>>,
        Ghost(seen): Ghost<Seq<Shared<&'static T>>>,
    ) -> (out: (Phase, Ghost<Seq<Shared<&'static T>>>))
        requires
            self.can_show(seen),
            reached(call, seen) == after_look(call, first),
            self.preset() is Some ==> first is Initialized,
        ensures
            self.can_show(out.1@),
            reached(call, out.1@) == after_wait(call, out.0),
            !(first is Initializing) ==> out.0 == first,
    {
        let look = || -> (found: Phase) { self.look(true) };
        let (last, looks) = wait_out(first, look, SPIN_LIMIT);
        let ghost mut seen = seen;
        proof {
            if first is Initializing {
                lemma_wait_out(call, seen, self.preset(), last, looks);
                seen = seen + waited(self.preset(), last, looks);
            }
        }
        (last, Ghost(seen))
    }

    /// The stored reference, or `DataUninitialized` if nothing is stored.
    /// A caller that finds the cell being initialised waits for the writer.
    /// A cell that was built around a value always yields it.
    pub fn get(&self) -> (r: Result<&'static T, OnceInitError>)
        ensures
            self.answers(Call::Get, Reply::Got(r)),
            self.preset() matches Some(d) ==> r == Ok::<&'static T, OnceInitError>(d),
            r matches Err(e) ==> e == OnceInitError::DataUninitialized,
            r matches Ok(v) ==> self.allows(v),
    {
        let first = self.look(false);
        let ghost found = Shared { phase: first, slot: self.preset() };
        proof {
            lemma_reached_push(Call::Get, Seq::empty(), found);
        }
        let (last, Ghost(seen)) = self.settle(
            first,
            Ghost(Call::Get),
            Ghost(Seq::empty().push(found)),
        );
        match last {
            Phase::Initialized => {
                let slot = self.peek();
                proof {
                    let found = Shared { phase: last, slot };
                    lemma_reached_push(Call::Get, seen, found);
                    assert(self.can_show(seen.push(found)));
                }
                read(last, slot)
            },
            _ => read(last, None),
        }
    }

    /// The stored reference of a cell that was built initialised, without a
    /// look at the tag.
    pub fn get_unchecked(&self) -> (v: &'static T)
        requires
            self.preset() is Some,
        ensures
            self.preset() == Some(v),
    {
        match self.peek() {
            Some(v) => v,
            None => unreached(),
        }
    }

    /// Whether a value is stored. A caller that finds the cell being
    /// initialised waits for the writer.
    /// A cell that was built around a value is always reported initialised.
    pub fn state(&self) -> (s: OnceInitState)
        ensures
            self.answers(Call::State, Reply::Told(s)),
            self.preset() is Some ==> s == OnceInitState::INITIALIZED,
    {
        let first = self.look(false);
        let ghost found = Shared { phase: first, slot: self.preset() };
        proof {
            lemma_reached_push(Call::State, Seq::empty(), found);
        }
        let (last, Ghost(seen)) = self.settle(
            first,
            Ghost(Call::State),
            Ghost(Seq::empty().push(found)),
        );
        report(last)
    }

    /// Tries to claim the cell and, on winning, stores what `make_data`
    /// produces, which is `data`, and publishes it. `make_data` is called
    /// only by the winner.
    fn init_internal<F>(&self, make_data: F, Ghost(data): Ghost<&'static T>) -> (r: Result<
        (),
        OnceInitError,
    >)
        where
            F: FnOnce() -> &'static T,
        requires
            make_data.requires(()),
            forall|made: &'static T| make_data.ensures((), made) ==> made == data,
        ensures
            self.answers(Call::Init(data), Reply::Stored(r)),
            self.preset() is Some ==> r == Err::<(), OnceInitError>(OnceInitError::DataInitialized),
            r matches Err(e) ==> e == OnceInitError::DataInitialized,
            r is Ok ==> self.preset() is None,
    {
        let found_phase = self.exchange(Phase::Uninitialized, Phase::Initializing);
        let ghost call = Call::Init(data);
        let ghost found = Shared { phase: found_phase, slot: self.preset() };
        let ghost seen = Seq::empty().push(found);
        proof {
            lemma_reached_push(call, Seq::empty(), found);
        }
        match claim(found_phase) {
            Claim::Busy => {
                let _ = self.settle(found_phase, Ghost(call), Ghost(seen));
                Err(OnceInitError::DataInitialized)
            },
            Claim::Late => Err(OnceInitError::DataInitialized),
            Claim::Won => {
                let (held, handle) = self.data.acquire_write();
                let (kept, reply) = offer(held, make_data);
                handle.release_write(kept);
                let ghost claimed = Shared { phase: Phase::Initializing, slot: held };
                let ghost filled = Shared { phase: Phase::Initializing, slot: kept };
                self.publish(
                    Phase::Initialized,
                    Ghost(filled),
                    Ghost(Op { call, stage: Stage::Publish(reply) }),
                );
                proof {
                    lemma_reached_push(call, seen, claimed);
                    lemma_reached_push(call, seen.push(claimed), filled);
                    assert(self.can_show(seen.push(claimed).push(filled)));
                }
                reply
            },
        }
    }

    /// Stores `data` if nothing was stored before, and reports
    /// `DataInitialized` otherwise.
    pub fn init(&self, data: &'static T) -> (r: Result<(), OnceInitError>)
        ensures
            self.answers(Call::Init(data), Reply::Stored(r)),
            self.preset() is Some ==> r == Err::<(), OnceInitError>(OnceInitError::DataInitialized),
            r matches Err(e) ==> e == OnceInitError::DataInitialized,
            r is Ok ==> self.preset() is None,
    {
        let make = || -> (made: &'static T)
            ensures
                made == data,
            { data };
        self.init_internal(make, Ghost(data))
    }

    /// As `init`, for a value the caller owns. The winner keeps the value
    /// alive for the rest of the process; a loser drops it.
    pub fn init_boxed(&self, data: Box<T>) -> (r: Result<(), OnceInitError>)
        ensures
            self.answers(Call::Init(&*data), Reply::Stored(r)),
            self.preset() is Some ==> r == Err::<(), OnceInitError>(OnceInitError::DataInitialized),
            r matches Err(e) ==> e == OnceInitError::DataInitialized,
            r is Ok ==> self.preset() is None,
    {
        let ghost target: &'static T = &*data;
        let make = move || -> (made: &'static T)
            ensures
                made == target,
            { leak(data) };
        self.init_internal(make, Ghost(target))
    }
}

} // verus!
