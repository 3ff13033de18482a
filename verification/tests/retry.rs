use cfg_rs::{ConfigError, Configuration};
use resource_registry::error::ResolveError;
use resource_registry::registry::{AppContext, Application, Erased, Resource};
use std::sync::atomic::{AtomicBool, Ordering};
use std::sync::Arc;

static FLAKY_ALREADY_FAILED: AtomicBool = AtomicBool::new(false);

/// A resource whose constructor rejects its input the first time it
/// runs and accepts it afterwards: the failed resolution must leave no
/// cache entry behind, so the retry constructs and succeeds.
#[derive(Debug)]
struct Flaky {
    n: u8,
}

#[derive(Clone)]
enum Held {
    Flaky(Arc<Flaky>),
}

impl Erased for Held {}

impl Resource<Held> for Flaky {
    type Config = u8;

    fn type_id() -> u64 {
        1
    }

    fn prefix_key() -> String {
        "flaky".to_string()
    }

    fn erase(x: &Arc<Flaky>) -> Held {
        Held::Flaky(x.clone())
    }

    fn extract(v: &Held) -> Arc<Flaky> {
        match v {
            Held::Flaky(a) => a.clone(),
        }
    }

    fn create(config: u8, _context: AppContext<'_, Held>) -> Result<Flaky, ResolveError> {
        if !FLAKY_ALREADY_FAILED.swap(true, Ordering::SeqCst) {
            Err(ResolveError::Source(ConfigError::ConfigParseError(
                "flaky".to_string(),
                "rejected by the constructor".to_string(),
            )))
        } else {
            Ok(Flaky { n: config })
        }
    }
}

#[test]
fn failed_construction_leaves_no_entry() {
    let conf = Configuration::new()
        .register_kv("test")
        .set("flaky", "7")
        .finish()
        .unwrap();
    let mut app = Application::new(conf);
    let r1 = app.get::<Flaky>("");
    match r1 {
        Err(ResolveError::Source(ConfigError::ConfigParseError(k, m))) => {
            assert_eq!(k, "flaky");
            assert_eq!(m, "rejected by the constructor");
        }
        other => panic!("expected the constructor's own error, got {:?}", other),
    }
    let r2 = app.get::<Flaky>("").unwrap();
    assert_eq!(r2.n, 7);
    let r3 = app.get::<Flaky>("").unwrap();
    assert!(Arc::ptr_eq(&r2, &r3));
}
