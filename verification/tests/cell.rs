use onceinit::OnceInit;
use onceinit::OnceInitError;
use onceinit::OnceInitState;
use onceinit::StaticDefault;
use std::sync::atomic::AtomicUsize;
use std::sync::atomic::Ordering;

static VALUE_A: u32 = 11;
static VALUE_B: u32 = 22;
static FALLBACK: Config = Config { level: 3 };
static TUNED: Config = Config { level: 9 };
static FALLBACK_CALLS: AtomicUsize = AtomicUsize::new(0);
static DROPS: AtomicUsize = AtomicUsize::new(0);

#[derive(Debug, PartialEq)]
struct Config {
    level: u8,
}

impl StaticDefault for Config {
    fn static_default() -> &'static Self {
        FALLBACK_CALLS.fetch_add(1, Ordering::SeqCst);
        &FALLBACK
    }
}

struct Counted(u8);

impl Drop for Counted {
    fn drop(&mut self) {
        DROPS.fetch_add(1, Ordering::SeqCst);
    }
}

fn is_shareable<X: Sync + Send>() {}

#[test]
fn fresh_cell_refuses_read() {
    let cell: OnceInit<u32> = OnceInit::uninit();
    assert_eq!(cell.get(), Err(OnceInitError::DataUninitialized));
    assert_eq!(cell.get(), Err(OnceInitError::DataUninitialized));
}

#[test]
fn fresh_cell_reports_uninitialized() {
    let cell: OnceInit<u32> = OnceInit::uninit();
    assert_eq!(cell.state(), OnceInitState::UNINITIALIZED);
    assert_eq!(cell.get(), Err(OnceInitError::DataUninitialized));
    assert_eq!(cell.state(), OnceInitState::UNINITIALIZED);
}

#[test]
fn stored_value_is_read_again_and_again() {
    let cell: OnceInit<u32> = OnceInit::uninit();
    assert_eq!(cell.init(&VALUE_A), Ok(()));
    for _ in 0..100 {
        assert_eq!(cell.get(), Ok(&VALUE_A));
    }
    assert_eq!(cell.state(), OnceInitState::INITIALIZED);
}

#[test]
fn stored_reference_is_the_one_handed_in() {
    let cell: OnceInit<u32> = OnceInit::uninit();
    cell.init(&VALUE_A).unwrap();
    let got = cell.get().unwrap();
    assert!(std::ptr::eq(got, &VALUE_A));
}

#[test]
fn write_once_scenario() {
    let cell: OnceInit<u32> = OnceInit::uninit();
    assert_eq!(cell.get(), Err(OnceInitError::DataUninitialized));
    assert_eq!(cell.init(&VALUE_A), Ok(()));
    assert_eq!(cell.init(&VALUE_B), Err(OnceInitError::DataInitialized));
    assert_eq!(cell.get(), Ok(&11));
}

#[test]
fn of_many_writers_one_wins() {
    let cell: OnceInit<u32> = OnceInit::uninit();
    let mut wins = 0;
    let mut refusals = 0;
    for n in 0..8u32 {
        match cell.init_boxed(Box::new(100 + n)) {
            Ok(()) => wins += 1,
            Err(OnceInitError::DataInitialized) => refusals += 1,
            Err(OnceInitError::DataUninitialized) => panic!("a write never reports this"),
        }
    }
    assert_eq!(wins, 1);
    assert_eq!(refusals, 7);
    for _ in 0..8 {
        assert_eq!(cell.get(), Ok(&100));
    }
}

#[test]
fn two_writers_in_either_order() {
    let first: OnceInit<u32> = OnceInit::uninit();
    assert_eq!(first.init(&VALUE_A), Ok(()));
    assert_eq!(first.init(&VALUE_B), Err(OnceInitError::DataInitialized));
    assert_eq!(first.get(), Ok(&VALUE_A));
    assert_eq!(first.get(), Ok(&VALUE_A));

    let second: OnceInit<u32> = OnceInit::uninit();
    assert_eq!(second.init(&VALUE_B), Ok(()));
    assert_eq!(second.init(&VALUE_A), Err(OnceInitError::DataInitialized));
    assert_eq!(second.get(), Ok(&VALUE_B));
    assert_eq!(second.get(), Ok(&VALUE_B));
}

#[test]
fn read_with_fallback_then_with_value() {
    let cell: OnceInit<Config> = OnceInit::uninit();
    let before = FALLBACK_CALLS.load(Ordering::SeqCst);
    assert_eq!(cell.get_or_default(), &Config { level: 3 });
    assert_eq!(cell.get_or_default(), &Config { level: 3 });
    assert!(std::ptr::eq(cell.get_or_default(), Config::static_default()));
    assert!(FALLBACK_CALLS.load(Ordering::SeqCst) >= before + 3);
    // the fallback is handed out, not stored
    assert_eq!(cell.get(), Err(OnceInitError::DataUninitialized));
    assert_eq!(cell.state(), OnceInitState::UNINITIALIZED);
    assert_eq!(cell.init(&TUNED), Ok(()));
    assert_eq!(cell.get_or_default(), &Config { level: 9 });
    assert!(std::ptr::eq(cell.get_or_default(), &TUNED));
}

#[test]
fn deref_reads_through_the_cell() {
    let cell: OnceInit<Config> = OnceInit::uninit();
    assert_eq!(cell.level, 3);
    cell.init(&TUNED).unwrap();
    assert_eq!(cell.level, 9);
    assert_eq!(*cell, Config { level: 9 });
}

#[test]
fn cell_built_with_a_value_is_initialized() {
    let cell = OnceInit::new(&VALUE_B);
    assert_eq!(cell.state(), OnceInitState::INITIALIZED);
    assert_eq!(cell.get(), Ok(&22));
    assert_eq!(cell.get_unchecked(), &22);
    assert!(std::ptr::eq(cell.get_unchecked(), &VALUE_B));
    assert_eq!(cell.init(&VALUE_A), Err(OnceInitError::DataInitialized));
    assert_eq!(cell.init_boxed(Box::new(5)), Err(OnceInitError::DataInitialized));
    assert_eq!(cell.get(), Ok(&22));
}

#[test]
fn cell_built_with_a_value_keeps_it_after_a_refused_write() {
    let cell: OnceInit<u32> = OnceInit::new(&VALUE_A);
    assert!(matches!(cell.init_boxed(Box::new(2)), Err(OnceInitError::DataInitialized)));
    assert_eq!(*cell.get().unwrap(), 11);
    assert!(std::ptr::eq(cell.get().unwrap(), &VALUE_A));
    assert!(matches!(cell.state(), OnceInitState::INITIALIZED));
    assert!(matches!(cell.init(&VALUE_A), Err(OnceInitError::DataInitialized)));
}

#[test]
fn fallback_reads_do_not_use_up_the_write() {
    let cell: OnceInit<Config> = OnceInit::uninit();
    for _ in 0..5 {
        assert_eq!(cell.get_or_default(), &Config { level: 3 });
        assert_eq!(cell.level, 3);
    }
    assert_eq!(cell.init(&TUNED), Ok(()));
    assert_eq!(cell.get(), Ok(&TUNED));
}

#[test]
fn default_cell_holds_the_fallback() {
    let cell: OnceInit<Config> = OnceInit::default();
    assert_eq!(cell.state(), OnceInitState::INITIALIZED);
    assert_eq!(cell.get(), Ok(&Config { level: 3 }));
    assert!(std::ptr::eq(cell.get_unchecked(), &FALLBACK));
    assert_eq!(cell.init(&TUNED), Err(OnceInitError::DataInitialized));
    assert_eq!(cell.get_or_default(), &Config { level: 3 });
}

#[test]
fn owned_value_is_kept_by_the_winner() {
    let cell: OnceInit<String> = OnceInit::uninit();
    assert_eq!(cell.init_boxed(Box::new(String::from("kept"))), Ok(()));
    assert_eq!(cell.get().map(|s| s.as_str()), Ok("kept"));
    assert_eq!(cell.init_boxed(Box::new(String::from("lost"))), Err(OnceInitError::DataInitialized));
    assert_eq!(cell.get().map(|s| s.as_str()), Ok("kept"));
}

#[test]
fn owned_value_of_a_loser_is_dropped() {
    let cell: OnceInit<Counted> = OnceInit::uninit();
    let before = DROPS.load(Ordering::SeqCst);
    assert!(cell.init_boxed(Box::new(Counted(1))).is_ok());
    assert_eq!(DROPS.load(Ordering::SeqCst), before);
    assert!(cell.init_boxed(Box::new(Counted(2))).is_err());
    assert_eq!(DROPS.load(Ordering::SeqCst), before + 1);
    assert_eq!(cell.get().map(|c| c.0), Ok(1));
}

#[test]
fn unsized_payload() {
    let cell: OnceInit<str> = OnceInit::uninit();
    assert_eq!(cell.get(), Err(OnceInitError::DataUninitialized));
    assert_eq!(cell.init_boxed(String::from("text").into_boxed_str()), Ok(()));
    assert_eq!(cell.get(), Ok("text"));
    assert_eq!(cell.init("other"), Err(OnceInitError::DataInitialized));
    assert_eq!(cell.get(), Ok("text"));
}

#[test]
fn unsized_payload_from_the_start() {
    let cell: OnceInit<str> = OnceInit::new("ready");
    assert_eq!(cell.state(), OnceInitState::INITIALIZED);
    assert_eq!(cell.get(), Ok("ready"));
    assert_eq!(cell.get_unchecked(), "ready");
    assert_eq!(cell.init("other"), Err(OnceInitError::DataInitialized));
}

#[test]
fn state_follows_the_write() {
    let cell: OnceInit<u32> = OnceInit::uninit();
    assert_eq!(cell.state(), OnceInitState::UNINITIALIZED);
    assert_eq!(cell.init(&VALUE_A), Ok(()));
    assert_eq!(cell.state(), OnceInitState::INITIALIZED);
    assert_eq!(cell.init(&VALUE_B), Err(OnceInitError::DataInitialized));
    assert_eq!(cell.state(), OnceInitState::INITIALIZED);
}

#[test]
fn error_descriptions() {
    assert_eq!(OnceInitError::DataUninitialized.to_string(), "data is uninitialized.");
    assert_eq!(
        OnceInitError::DataInitialized.to_string(),
        "data has already been initialized."
    );
    assert_ne!(OnceInitError::DataUninitialized, OnceInitError::DataInitialized);
}

#[test]
fn cell_can_be_shared_between_threads() {
    is_shareable::<OnceInit<u32>>();
    is_shareable::<OnceInit<str>>();
    is_shareable::<OnceInit<Config>>();
}
