use vstd::prelude::*;

use crate::error::ResolveError;

verus! {

/// The configuration source. All parsing, merging and placeholder
/// substitution happens inside `cfg_rs`; this registry only asks it for
/// typed values at dotted paths and treats the answers as opaque.
#[verifier::external_type_specification]
#[verifier::external_body]
pub struct ExConfiguration(cfg_rs::Configuration);

/// The configuration source's own error type, carried through unchanged
/// inside [`ResolveError::Source`].
#[verifier::external_type_specification]
#[verifier::external_body]
pub struct ExConfigError(cfg_rs::ConfigError);

/// The configuration sources on which `cfg_rs`'s lookup returns rather
/// than faults. `cfg_rs` reads stored string values byte by byte and
/// slices the single byte after a `$` or `\`, which panics when the
/// following character is not ASCII; only sources whose stored values
/// keep `$` and `\` followed by ASCII are admitted to the fetch
/// wrappers. A host building its source from such values satisfies
/// this; nothing at runtime can test it, so it is a stated obligation
/// on whoever supplies the source.
pub uninterp spec fn lookup_total(conf: cfg_rs::Configuration) -> bool;

/// Relies on `cfg_rs::Configuration::new`: a configuration with no
/// registered sources. Every lookup on it reports its key missing
/// without reading any stored value, so lookups on it return.
#[verifier::external_body]
pub(crate) fn empty_configuration() -> (r: cfg_rs::Configuration)
    ensures
        lookup_total(r),
{
    cfg_rs::Configuration::new()
}

/// Relies on `cfg_rs::Configuration::get::<u8>`: resolves a dotted path
/// into a `u8`. The result depends on the registered sources, which may
/// inject randomness, so nothing is promised of it.
#[verifier::external_body]
fn config_get_u8(conf: &cfg_rs::Configuration, key: &str) -> Result<u8, cfg_rs::ConfigError>
    requires
        lookup_total(*conf),
{
    conf.get::<u8>(key)
}

/// Relies on `cfg_rs::Configuration::get::<u64>`: resolves a dotted path
/// into a `u64`; same remarks as for the `u8` accessor.
#[verifier::external_body]
fn config_get_u64(conf: &cfg_rs::Configuration, key: &str) -> Result<u64, cfg_rs::ConfigError>
    requires
        lookup_total(*conf),
{
    conf.get::<u64>(key)
}

/// Relies on `cfg_rs::Configuration::get::<bool>`: resolves a dotted path
/// into a `bool`; same remarks as for the `u8` accessor.
#[verifier::external_body]
fn config_get_bool(conf: &cfg_rs::Configuration, key: &str) -> Result<bool, cfg_rs::ConfigError>
    requires
        lookup_total(*conf),
{
    conf.get::<bool>(key)
}

/// Relies on `cfg_rs::Configuration::get::<String>`: resolves a dotted
/// path into a `String`; same remarks as for the `u8` accessor.
#[verifier::external_body]
fn config_get_string(
    conf: &cfg_rs::Configuration,
    key: &str,
) -> Result<String, cfg_rs::ConfigError>
    requires
        lookup_total(*conf),
{
    conf.get::<String>(key)
}

/// A value the configuration source can produce at a dotted path: the
/// schema side of the resource contract. Implementations for the plain
/// primitive types live here; a resource with a richer schema implements
/// this for its own configuration type.
pub trait ConfValue: Sized {
    /// Ask the configuration source for a value of this type at `key`.
    /// Source failures come back as [`ResolveError::Source`], unchanged:
    /// a fetch never reports recursive construction.
    fn fetch(conf: &cfg_rs::Configuration, key: &str) -> (r: Result<Self, ResolveError>)
        requires
            lookup_total(*conf),
        ensures
            r matches Err(e) ==> e is Source,
    ;
}

impl ConfValue for u8 {
    fn fetch(conf: &cfg_rs::Configuration, key: &str) -> Result<Self, ResolveError> {
        match config_get_u8(conf, key) {
            Ok(v) => Ok(v),
            Err(e) => Err(ResolveError::Source(e)),
        }
    }
}

impl ConfValue for u64 {
    fn fetch(conf: &cfg_rs::Configuration, key: &str) -> Result<Self, ResolveError> {
        match config_get_u64(conf, key) {
            Ok(v) => Ok(v),
            Err(e) => Err(ResolveError::Source(e)),
        }
    }
}

impl ConfValue for bool {
    fn fetch(conf: &cfg_rs::Configuration, key: &str) -> Result<Self, ResolveError> {
        match config_get_bool(conf, key) {
            Ok(v) => Ok(v),
            Err(e) => Err(ResolveError::Source(e)),
        }
    }
}

impl ConfValue for String {
    fn fetch(conf: &cfg_rs::Configuration, key: &str) -> Result<Self, ResolveError> {
        match config_get_string(conf, key) {
            Ok(v) => Ok(v),
            Err(e) => Err(ResolveError::Source(e)),
        }
    }
}

} // verus!
