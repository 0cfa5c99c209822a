use onceinit::cell::offer;
use onceinit::cell::wait_out;
use onceinit::phase::claim;
use onceinit::phase::phase_of;
use onceinit::phase::read;
use onceinit::phase::report;
use onceinit::phase::Claim;
use onceinit::phase::Phase;
use onceinit::phase::INITIALIZED;
use onceinit::phase::INITIALIZING;
use onceinit::phase::SPIN_LIMIT;
use onceinit::phase::UNINITIALIZED;
use onceinit::OnceInitError;
use onceinit::OnceInitState;
use std::cell::Cell;

#[test]
fn tags_have_their_numbers() {
    assert_eq!(UNINITIALIZED, 0);
    assert_eq!(INITIALIZING, 1);
    assert_eq!(INITIALIZED, 2);
    assert_eq!(SPIN_LIMIT, u64::MAX);
}

#[test]
fn states_have_their_numbers() {
    assert_eq!(OnceInitState::UNINITIALIZED.tag(), 0);
    assert_eq!(OnceInitState::INITIALIZED.tag(), 2);
    assert_eq!(report(phase_of(OnceInitState::UNINITIALIZED.tag())), OnceInitState::UNINITIALIZED);
    assert_eq!(report(phase_of(OnceInitState::INITIALIZED.tag())), OnceInitState::INITIALIZED);
}

#[test]
fn phases_make_their_tags() {
    assert_eq!(Phase::Uninitialized.tag(), UNINITIALIZED);
    assert_eq!(Phase::Initializing.tag(), INITIALIZING);
    assert_eq!(Phase::Initialized.tag(), INITIALIZED);
    assert_eq!(phase_of(Phase::Uninitialized.tag()), Phase::Uninitialized);
    assert_eq!(phase_of(Phase::Initializing.tag()), Phase::Initializing);
    assert_eq!(phase_of(Phase::Initialized.tag()), Phase::Initialized);
}

#[test]
fn tags_decode_to_phases() {
    assert_eq!(phase_of(0), Phase::Uninitialized);
    assert_eq!(phase_of(1), Phase::Initializing);
    assert_eq!(phase_of(2), Phase::Initialized);
    assert_eq!(phase_of(3), Phase::Uninitialized);
    assert_eq!(phase_of(usize::MAX), Phase::Uninitialized);
}

#[test]
fn claim_by_phase_found() {
    assert_eq!(claim(Phase::Uninitialized), Claim::Won);
    assert_eq!(claim(Phase::Initializing), Claim::Busy);
    assert_eq!(claim(Phase::Initialized), Claim::Late);
}

#[test]
fn read_by_phase_and_slot() {
    assert_eq!(read(Phase::Initialized, Some(5)), Ok(5));
    assert_eq!(read::<u8>(Phase::Initialized, None), Err(OnceInitError::DataUninitialized));
    assert_eq!(read(Phase::Initializing, Some(5)), Err(OnceInitError::DataUninitialized));
    assert_eq!(read::<u8>(Phase::Initializing, None), Err(OnceInitError::DataUninitialized));
    assert_eq!(read(Phase::Uninitialized, Some(5)), Err(OnceInitError::DataUninitialized));
    assert_eq!(read::<u8>(Phase::Uninitialized, None), Err(OnceInitError::DataUninitialized));
}

#[test]
fn report_by_phase() {
    assert_eq!(report(Phase::Uninitialized), OnceInitState::UNINITIALIZED);
    assert_eq!(report(Phase::Initializing), OnceInitState::UNINITIALIZED);
    assert_eq!(report(Phase::Initialized), OnceInitState::INITIALIZED);
}

#[test]
fn offer_to_empty_slot_is_taken() {
    let mut calls = 0;
    let (slot, reply) = offer(None, || {
        calls += 1;
        7
    });
    assert_eq!(slot, Some(7));
    assert_eq!(reply, Ok(()));
    assert_eq!(calls, 1);
}

#[test]
fn offer_to_full_slot_is_refused() {
    let mut calls = 0;
    let (slot, reply) = offer(Some(3), || {
        calls += 1;
        7
    });
    assert_eq!(slot, Some(3));
    assert_eq!(reply, Err(OnceInitError::DataInitialized));
    assert_eq!(calls, 0);
}

#[test]
fn wait_is_over_at_once_unless_initializing() {
    let looks = Cell::new(0u32);
    let look = || {
        looks.set(looks.get() + 1);
        Phase::Initializing
    };
    assert_eq!(wait_out(Phase::Initialized, &look, 10), (Phase::Initialized, 0));
    assert_eq!(wait_out(Phase::Uninitialized, &look, 10), (Phase::Uninitialized, 0));
    assert_eq!(looks.get(), 0);
}

#[test]
fn wait_ends_when_the_writer_publishes() {
    let looks = Cell::new(0u32);
    let look = || {
        looks.set(looks.get() + 1);
        if looks.get() < 3 {
            Phase::Initializing
        } else {
            Phase::Initialized
        }
    };
    assert_eq!(wait_out(Phase::Initializing, look, 10), (Phase::Initialized, 3));
    assert_eq!(looks.get(), 3);
}

#[test]
fn wait_ends_on_the_last_look_allowed() {
    let looks = Cell::new(0u32);
    let look = || {
        looks.set(looks.get() + 1);
        if looks.get() < 4 {
            Phase::Initializing
        } else {
            Phase::Initialized
        }
    };
    assert_eq!(wait_out(Phase::Initializing, look, 4), (Phase::Initialized, 4));
    assert_eq!(looks.get(), 4);
}

#[test]
fn wait_gives_up_at_the_limit() {
    let looks = Cell::new(0u32);
    let look = || {
        looks.set(looks.get() + 1);
        Phase::Initializing
    };
    assert_eq!(wait_out(Phase::Initializing, &look, 5), (Phase::Initializing, 5));
    assert_eq!(looks.get(), 5);
    assert_eq!(wait_out(Phase::Initializing, &look, 0), (Phase::Initializing, 0));
    assert_eq!(looks.get(), 5);
}
