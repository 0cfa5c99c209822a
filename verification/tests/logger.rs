use onceinit::OnceInit;
use onceinit::OnceInitError;
use onceinit::StaticDefault;
use std::sync::LazyLock;

trait Logger: Send + Sync {
    fn log(&self, msg: &str);
}

static LOGGER: LazyLock<OnceInit<dyn Logger>> = LazyLock::new(OnceInit::uninit);

struct DefaultLogger;

impl Logger for DefaultLogger {
    fn log(&self, _msg: &str) {
        // do nothing.
    }
}

static NOP: DefaultLogger = DefaultLogger;

impl StaticDefault for dyn Logger {
    fn static_default() -> &'static Self {
        &NOP
    }
}

struct ALogger;

impl Logger for ALogger {
    fn log(&self, msg: &str) {
        println!("{msg}");
    }
}

impl ALogger {
    fn init() -> Result<(), OnceInitError> {
        LOGGER.init_boxed(Box::new(ALogger))
    }
}

fn hello_world() {
    LOGGER.log("Hello, world!");
}

#[test]
fn test_logger() {
    ALogger::init().unwrap();
    hello_world();
}
