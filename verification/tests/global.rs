use onceinit::global::or_default;
use onceinit::OnceInit;
use onceinit::OnceInitError;
use onceinit::StaticDefault;
use onceinit::UninitGlobal;
use onceinit::UninitGlobalHolder;
use std::sync::LazyLock;

static PLAIN: Theme = Theme { name: "plain" };
static DARK: Theme = Theme { name: "dark" };
static THEME: LazyLock<OnceInit<Theme>> = LazyLock::new(OnceInit::uninit);

#[derive(Debug, PartialEq)]
struct Theme {
    name: &'static str,
}

impl StaticDefault for Theme {
    fn static_default() -> &'static Self {
        &PLAIN
    }
}

impl UninitGlobal<Theme, OnceInit<Theme>> for Theme {
    fn holder() -> &'static OnceInit<Theme> {
        &THEME
    }
}

fn set_through<H: UninitGlobalHolder<u8>>(holder: &H, data: &'static u8) -> Result<(), OnceInitError> {
    holder.init(data)
}

fn set_owned_through<H: UninitGlobalHolder<u8>>(holder: &H, data: u8) -> Result<(), OnceInitError> {
    holder.init_boxed(Box::new(data))
}

#[test]
fn fallback_only_on_error() {
    assert_eq!(or_default::<Theme>(Ok(&DARK)), &DARK);
    assert_eq!(or_default::<Theme>(Err(OnceInitError::DataUninitialized)), &PLAIN);
    assert_eq!(or_default::<Theme>(Err(OnceInitError::DataInitialized)), &PLAIN);
}

#[test]
fn holder_sets_once() {
    let cell: OnceInit<u8> = OnceInit::uninit();
    assert_eq!(set_through(&cell, &4), Ok(()));
    assert_eq!(set_through(&cell, &5), Err(OnceInitError::DataInitialized));
    assert_eq!(set_owned_through(&cell, 6), Err(OnceInitError::DataInitialized));
    assert_eq!(cell.get(), Ok(&4));
}

#[test]
fn holder_sets_once_from_owned_value() {
    let cell: OnceInit<u8> = OnceInit::uninit();
    assert_eq!(set_owned_through(&cell, 6), Ok(()));
    assert_eq!(set_through(&cell, &5), Err(OnceInitError::DataInitialized));
    assert_eq!(cell.get(), Ok(&6));
}

#[test]
fn global_instance_is_set_once() {
    assert_eq!(Theme::holder().get_or_default().name, "plain");
    assert_eq!(<Theme as UninitGlobal<Theme, OnceInit<Theme>>>::init(&DARK), Ok(()));
    assert_eq!(
        <Theme as UninitGlobal<Theme, OnceInit<Theme>>>::init_boxed(Box::new(Theme { name: "late" })),
        Err(OnceInitError::DataInitialized)
    );
    assert_eq!(
        <Theme as UninitGlobal<Theme, OnceInit<Theme>>>::init(&PLAIN),
        Err(OnceInitError::DataInitialized)
    );
    assert_eq!(Theme::holder().get(), Ok(&DARK));
    assert_eq!(Theme::holder().name, "dark");
}
