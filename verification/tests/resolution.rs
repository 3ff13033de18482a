use cfg_rs::Configuration;
use resource_registry::error::ResolveError;
use resource_registry::registry::{section_path, AppContext, Application, Erased, Resource};
use std::sync::Arc;

#[derive(Debug)]
struct U {
    u: u8,
}

/// A resource whose value is a freshly sampled random number, so that
/// construction sharing and construction freshness are observable.
#[derive(Debug)]
struct Stamp {
    v: u64,
}

/// A second resource type reading exactly the same configuration
/// section as `Stamp`.
#[derive(Debug)]
struct Other {
    v: u64,
}

/// A resource whose constructor resolves itself, shared, under its own
/// namespace: re-entrant by construction.
#[derive(Debug)]
struct SelfRef {}

/// A resource whose constructor resolves itself bare (non-shared) under
/// the namespace its configuration value names; the configuration
/// encodes the recursion depth.
#[derive(Debug)]
struct Chain {
    links: u64,
}

/// Like `Chain`, but the recursive resolution is shared: the nested key
/// differs from the in-flight one, so it must succeed.
#[derive(Debug)]
struct SChain {
    links: u64,
}

#[derive(Clone)]
enum Held {
    U(Arc<U>),
    Stamp(Arc<Stamp>),
    Other(Arc<Other>),
    SelfRef(Arc<SelfRef>),
    Chain(Arc<Chain>),
    SChain(Arc<SChain>),
}

impl Erased for Held {}

impl Resource<Held> for U {
    type Config = u8;

    fn type_id() -> u64 {
        1
    }

    fn prefix_key() -> String {
        "hello.u".to_string()
    }

    fn erase(x: &Arc<U>) -> Held {
        Held::U(x.clone())
    }

    fn extract(v: &Held) -> Arc<U> {
        match v {
            Held::U(a) => a.clone(),
            _ => panic!("type token mismatch"),
        }
    }

    fn create(config: u8, _context: AppContext<'_, Held>) -> Result<U, ResolveError> {
        Ok(U { u: config })
    }
}

impl Resource<Held> for Stamp {
    type Config = u64;

    fn type_id() -> u64 {
        2
    }

    fn prefix_key() -> String {
        "pool".to_string()
    }

    fn erase(x: &Arc<Stamp>) -> Held {
        Held::Stamp(x.clone())
    }

    fn extract(v: &Held) -> Arc<Stamp> {
        match v {
            Held::Stamp(a) => a.clone(),
            _ => panic!("type token mismatch"),
        }
    }

    fn create(config: u64, _context: AppContext<'_, Held>) -> Result<Stamp, ResolveError> {
        Ok(Stamp { v: config })
    }
}

impl Resource<Held> for Other {
    type Config = u64;

    fn type_id() -> u64 {
        3
    }

    fn prefix_key() -> String {
        "pool".to_string()
    }

    fn erase(x: &Arc<Other>) -> Held {
        Held::Other(x.clone())
    }

    fn extract(v: &Held) -> Arc<Other> {
        match v {
            Held::Other(a) => a.clone(),
            _ => panic!("type token mismatch"),
        }
    }

    fn create(config: u64, _context: AppContext<'_, Held>) -> Result<Other, ResolveError> {
        Ok(Other { v: config })
    }
}

impl Resource<Held> for SelfRef {
    type Config = u8;

    fn type_id() -> u64 {
        4
    }

    fn prefix_key() -> String {
        "flag".to_string()
    }

    fn erase(x: &Arc<SelfRef>) -> Held {
        Held::SelfRef(x.clone())
    }

    fn extract(v: &Held) -> Arc<SelfRef> {
        match v {
            Held::SelfRef(a) => a.clone(),
            _ => panic!("type token mismatch"),
        }
    }

    fn create(_config: u8, context: AppContext<'_, Held>) -> Result<SelfRef, ResolveError> {
        let ns = context.get_namespace();
        let _again: Arc<SelfRef> = context.app.get::<SelfRef>(ns)?;
        Ok(SelfRef {})
    }
}

impl Resource<Held> for Chain {
    type Config = String;

    fn type_id() -> u64 {
        5
    }

    fn prefix_key() -> String {
        "chain".to_string()
    }

    fn erase(x: &Arc<Chain>) -> Held {
        Held::Chain(x.clone())
    }

    fn extract(v: &Held) -> Arc<Chain> {
        match v {
            Held::Chain(a) => a.clone(),
            _ => panic!("type token mismatch"),
        }
    }

    fn create(config: String, context: AppContext<'_, Held>) -> Result<Chain, ResolveError> {
        if config.is_empty() {
            Ok(Chain { links: 0 })
        } else {
            let inner: Chain = context.app.get_or_new::<Chain>(&config)?;
            Ok(Chain { links: inner.links + 1 })
        }
    }
}

impl Resource<Held> for SChain {
    type Config = String;

    fn type_id() -> u64 {
        6
    }

    fn prefix_key() -> String {
        "schain".to_string()
    }

    fn erase(x: &Arc<SChain>) -> Held {
        Held::SChain(x.clone())
    }

    fn extract(v: &Held) -> Arc<SChain> {
        match v {
            Held::SChain(a) => a.clone(),
            _ => panic!("type token mismatch"),
        }
    }

    fn create(config: String, context: AppContext<'_, Held>) -> Result<SChain, ResolveError> {
        if config.is_empty() {
            Ok(SChain { links: 0 })
        } else {
            let inner: Arc<SChain> = context.app.get::<SChain>(&config)?;
            Ok(SChain { links: inner.links + 1 })
        }
    }
}

fn new_app() -> Application<Held> {
    let conf = Configuration::new()
        .register_random()
        .unwrap()
        .register_kv("test")
        .set("hello.u", "${random.u8}")
        .set("pool", "${random.u64}")
        .set("pool.a", "${random.u64}")
        .set("pool.b", "${random.u64}")
        .set("flag", "1")
        .set("chain", "a")
        .set("chain.a", "")
        .set("schain", "b")
        .set("schain.b", "")
        .finish()
        .unwrap();
    Application::new(conf)
}

#[test]
fn u8_test() -> Result<(), ResolveError> {
    let mut app = new_app();
    let u = app.get::<U>("")?;
    println!("{}", u.u);
    for _ in 0..10 {
        assert_eq!(&u.u, &app.get::<U>("")?.u);
    }
    Ok(())
}

#[test]
fn fun_test() -> Result<(), ResolveError> {
    let mut app = new_app();
    app.get::<U>("")?;
    Ok(())
}

#[test]
fn shared_resolution_is_idempotent() {
    let mut app = new_app();
    let a1 = app.get::<Stamp>("").unwrap();
    let a2 = app.get::<Stamp>("").unwrap();
    assert!(Arc::ptr_eq(&a1, &a2));
    assert_eq!(a1.v, a2.v);
}

#[test]
fn namespaces_are_isolated() {
    let mut app = new_app();
    let a = app.get::<Stamp>("a").unwrap();
    let b = app.get::<Stamp>("b").unwrap();
    assert!(!Arc::ptr_eq(&a, &b));
    assert_ne!(a.v, b.v);
    let a2 = app.get::<Stamp>("a").unwrap();
    assert!(Arc::ptr_eq(&a, &a2));
    assert_eq!(a.v, a2.v);
}

#[test]
fn types_are_isolated() {
    let mut app = new_app();
    let s = app.get::<Stamp>("a").unwrap();
    let o = app.get::<Other>("a").unwrap();
    let s2 = app.get::<Stamp>("a").unwrap();
    let o2 = app.get::<Other>("a").unwrap();
    assert!(Arc::ptr_eq(&s, &s2));
    assert!(Arc::ptr_eq(&o, &o2));
    assert_eq!(s.v, s2.v);
    assert_eq!(o.v, o2.v);
}

#[test]
fn bare_resolution_is_fresh() {
    let mut app = new_app();
    let f1: Stamp = app.get_or_new::<Stamp>("").unwrap();
    let f2: Stamp = app.get_or_new::<Stamp>("").unwrap();
    assert_ne!(f1.v, f2.v);
    let s1 = app.get::<Stamp>("").unwrap();
    let s2 = app.get::<Stamp>("").unwrap();
    assert_eq!(s1.v, s2.v);
}

#[test]
fn shared_self_recursion_is_detected() {
    let mut app = new_app();
    let r = app.get::<SelfRef>("");
    assert!(matches!(r, Err(ResolveError::Recursive)));
    let r2 = app.get::<SelfRef>("");
    assert!(matches!(r2, Err(ResolveError::Recursive)));
    let s = app.get::<Stamp>("").unwrap();
    assert!(Arc::ptr_eq(&s, &app.get::<Stamp>("").unwrap()));
}

#[test]
fn bare_self_recursion_completes() {
    let mut app = new_app();
    let c: Chain = app.get_or_new::<Chain>("").unwrap();
    assert_eq!(c.links, 1);
}

#[test]
fn shared_recursion_on_another_key_completes() {
    let mut app = new_app();
    let c = app.get::<SChain>("").unwrap();
    assert_eq!(c.links, 1);
    let leaf = app.get::<SChain>("b").unwrap();
    assert_eq!(leaf.links, 0);
}

#[test]
fn missing_configuration_error_propagates() {
    let mut app = new_app();
    let r = app.get::<Stamp>("nosuch");
    match r {
        Err(ResolveError::Source(e)) => {
            assert!(matches!(e, cfg_rs::ConfigError::ConfigNotFound(_)));
        }
        other => panic!("expected a source error, got {:?}", other),
    }
}

#[test]
fn default_registry_is_empty() {
    let mut app: Application<Held> = Default::default();
    assert!(matches!(app.get_conf::<u8>("x"), Err(ResolveError::Source(_))));
    assert!(matches!(app.get::<Stamp>(""), Err(ResolveError::Source(_))));
}

#[test]
fn prefetched_section_resolution() {
    let mut app = new_app();
    let first = app.get_with::<U>("z", Ok(5)).unwrap();
    assert_eq!(first.u, 5);
    let second = app.get_with::<U>("z", Ok(9)).unwrap();
    assert_eq!(second.u, 5);
    assert!(Arc::ptr_eq(&first, &second));
    let e = cfg_rs::ConfigError::ConfigNotFound("z2".to_string());
    let r = app.get_with::<U>("z2", Err(ResolveError::Source(e)));
    match r {
        Err(ResolveError::Source(cfg_rs::ConfigError::ConfigNotFound(k))) => {
            assert_eq!(k, "z2");
        }
        other => panic!("expected the fetch error unchanged, got {:?}", other),
    }
}

#[test]
fn context_accessors() {
    let mut app = new_app();
    let ctx = AppContext { app: &mut app, namespace: "ns1" };
    assert_eq!(ctx.get_namespace(), "ns1");
    assert_eq!(ctx.get_conf::<u8>("flag").unwrap(), 1u8);
    assert!(matches!(
        ctx.get_conf::<u8>("nosuch"),
        Err(ResolveError::Source(_))
    ));
}

#[test]
fn section_path_keyless() {
    assert_eq!(section_path("hello", ""), "hello");
}

#[test]
fn section_path_namespaced() {
    assert_eq!(section_path("pool", "a"), "pool.a");
    assert_eq!(section_path("", "a"), ".a");
}

#[test]
fn get_conf_passes_values_through() {
    let conf = Configuration::new()
        .register_kv("test")
        .set("answer", "42")
        .set("big", "70000")
        .set("yes", "true")
        .set("greet", "hi")
        .finish()
        .unwrap();
    let app: Application<Held> = Application::new(conf);
    assert_eq!(app.get_conf::<u8>("answer").unwrap(), 42u8);
    assert_eq!(app.get_conf::<u64>("big").unwrap(), 70000u64);
    assert!(app.get_conf::<bool>("yes").unwrap());
    assert_eq!(app.get_conf::<String>("greet").unwrap(), "hi");
    assert!(matches!(
        app.get_conf::<u8>("nosuch"),
        Err(ResolveError::Source(_))
    ));
}
