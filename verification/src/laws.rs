use vstd::prelude::*;

use crate::cache::Cache;
use crate::registry::{shared_ok, Erased, Resource};
use std::sync::Arc;

verus! {

/// A failed resolution creates no cache entry: a key that was absent
/// before a resolution that returned an error is absent afterwards, so
/// a later resolution may retry the construction.
///
/// The hypotheses are what an `Err` return of
/// [`crate::registry::Application::get`] guarantees about the key.
pub proof fn lemma_failure_leaves_no_entry<V>(
    pre: Cache<V>,
    post: Cache<V>,
    tid: u64,
    ns: Seq<char>,
)
    requires
        !pre.has(tid, ns),
        Cache::agree_at(pre, post, tid, ns),
    ensures
        !post.has(tid, ns),
{
}

/// Idempotent sharing: two successful shared resolutions of the same
/// resource type under the same namespace return the same shared
/// instance.
///
/// The hypotheses are exactly what two consecutive `Ok` returns of
/// [`crate::registry::Application::get`] guarantee about the cache.
pub proof fn lemma_idempotent_sharing<V: Erased, R: Resource<V>>(
    c0: Cache<V>,
    c1: Cache<V>,
    c2: Cache<V>,
    ns: Seq<char>,
    a1: Arc<R>,
    a2: Arc<R>,
)
    requires
        shared_ok::<V, R>(c0, c1, ns, a1),
        Cache::extends(c0, c1),
        shared_ok::<V, R>(c1, c2, ns, a2),
        Cache::extends(c1, c2),
    ensures
        a1 == a2,
{
    let tid = R::id_spec();
    assert(c1.has(tid, ns));
    assert(c2.slot_at(tid, ns) == c1.slot_at(tid, ns));
}

/// Namespace isolation: resolving the same resource type under a second
/// namespace leaves the first namespace's entry untouched, each
/// namespace's instance stays its own, and a still later resolution
/// under the first namespace answers the first instance again.
pub proof fn lemma_namespace_isolation<V: Erased, R: Resource<V>>(
    c0: Cache<V>,
    c1: Cache<V>,
    c2: Cache<V>,
    n1: Seq<char>,
    n2: Seq<char>,
    a1: Arc<R>,
    a2: Arc<R>,
)
    requires
        n1 != n2,
        shared_ok::<V, R>(c0, c1, n1, a1),
        Cache::extends(c0, c1),
        shared_ok::<V, R>(c1, c2, n2, a2),
        Cache::extends(c1, c2),
    ensures
        c2.ready_at(R::id_spec(), n1),
        a1 == R::instance_of(c2.value_at(R::id_spec(), n1)),
        a2 == R::instance_of(c2.value_at(R::id_spec(), n2)),
        forall|c3: Cache<V>, a3: Arc<R>|
            #[trigger] shared_ok::<V, R>(c2, c3, n1, a3) && Cache::extends(c2, c3) ==> a3 == a1,
{
    let tid = R::id_spec();
    assert(c1.has(tid, n1));
    assert(c2.slot_at(tid, n1) == c1.slot_at(tid, n1));
    assert forall|c3: Cache<V>, a3: Arc<R>|
        #[trigger] shared_ok::<V, R>(c2, c3, n1, a3) && Cache::extends(c2, c3) implies a3
        == a1 by {
        assert(c2.has(tid, n1));
        assert(c3.slot_at(tid, n1) == c2.slot_at(tid, n1));
    }
}

/// Type isolation: caching two resource types under the same namespace
/// string never cross-contaminates, provided the two types registered
/// distinct type tokens: each type's entry stays its own, and a still
/// later resolution of the first type answers the first instance again.
pub proof fn lemma_type_isolation<V: Erased, R1: Resource<V>, R2: Resource<V>>(
    c0: Cache<V>,
    c1: Cache<V>,
    c2: Cache<V>,
    ns: Seq<char>,
    a1: Arc<R1>,
    a2: Arc<R2>,
)
    requires
        R1::id_spec() != R2::id_spec(),
        shared_ok::<V, R1>(c0, c1, ns, a1),
        Cache::extends(c0, c1),
        shared_ok::<V, R2>(c1, c2, ns, a2),
        Cache::extends(c1, c2),
    ensures
        c2.ready_at(R1::id_spec(), ns),
        a1 == R1::instance_of(c2.value_at(R1::id_spec(), ns)),
        a2 == R2::instance_of(c2.value_at(R2::id_spec(), ns)),
        forall|c3: Cache<V>, a3: Arc<R1>|
            #[trigger] shared_ok::<V, R1>(c2, c3, ns, a3) && Cache::extends(c2, c3) ==> a3 == a1,
{
    let t1 = R1::id_spec();
    assert(c1.has(t1, ns));
    assert(c2.slot_at(t1, ns) == c1.slot_at(t1, ns));
    assert forall|c3: Cache<V>, a3: Arc<R1>|
        #[trigger] shared_ok::<V, R1>(c2, c3, ns, a3) && Cache::extends(c2, c3) implies a3
        == a1 by {
        assert(c2.has(t1, ns));
        assert(c3.slot_at(t1, ns) == c2.slot_at(t1, ns));
    }
}

} // verus!
