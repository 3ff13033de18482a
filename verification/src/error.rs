use vstd::prelude::*;

verus! {

/// An error surfaced by resource resolution.
///
/// Resolution fails either because the configuration source could not
/// produce the requested value (or a resource's own constructor rejected
/// it), or because a construction chain re-entered the cache for a key
/// whose construction was still in flight.
#[derive(Debug)]
pub enum ResolveError {
    /// The configuration source failed, or a resource constructor failed;
    /// the underlying error is carried unchanged.
    Source(cfg_rs::ConfigError),
    /// A resource under construction was asked for again, shared, under
    /// the same (type, namespace) key before its construction finished.
    Recursive,
}

} // verus!
