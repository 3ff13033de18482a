use vstd::prelude::*;

use crate::cache::{Cache, Probe};
use crate::config::{empty_configuration, lookup_total, ConfValue};
use crate::error::ResolveError;
use std::sync::Arc;
use vstd::string::StringExecFns;

verus! {

/// A type token paired with an erased value: the application chooses one
/// store type `V` (typically an enum with one variant per cacheable
/// resource type) and says, for each erased value, which resource type's
/// shared instance it carries.
pub trait Erased: Sized {
    /// The type token of the resource type whose instance this value
    /// carries. The default leaves it abstract: it is pinned down only
    /// through the contracts of [`Resource::erase`] and
    /// [`Resource::extract`].
    open spec fn tag(&self) -> u64 {
        arbitrary()
    }
}

/// The resource contract: how a cacheable type is built from its
/// configuration section, and how its shared instances are put into and
/// taken out of the type-erased store `V`.
///
/// Implementors must give distinct resource types distinct type tokens
/// within one store type `V`: the contracts of `erase` and `extract`
/// hold every implementation to that registration discipline.
pub trait Resource<V: Erased>: Sized {
    /// The configuration schema this resource is built from.
    type Config: ConfValue;

    /// The type token distinguishing this resource type in the cache.
    open spec fn id_spec() -> u64 {
        arbitrary()
    }

    /// The configuration prefix under which this resource's sections
    /// live.
    open spec fn prefix_spec() -> Seq<char> {
        arbitrary()
    }

    /// The shared instance an erased value carries (meaningful when the
    /// value's tag is this type's token).
    open spec fn instance_of(v: V) -> Arc<Self> {
        arbitrary()
    }

    /// The type token, as a runtime value.
    fn type_id() -> (r: u64)
        ensures
            r == Self::id_spec(),
    ;

    /// The configuration prefix, as a runtime value.
    fn prefix_key() -> (r: String)
        ensures
            r@ == Self::prefix_spec(),
    ;

    /// Put a shared instance into the erased store. Implementations must
    /// give distinct resource types distinct type tokens within one
    /// store type: the token decides which type's instance an erased
    /// value carries.
    fn erase(x: &Arc<Self>) -> (v: V)
        ensures
            v.tag() == Self::id_spec(),
            Self::instance_of(v) == *x,
    ;

    /// Take the shared instance back out of an erased value carrying an
    /// instance of this type — the one whose tag is this type's token.
    fn extract(v: &V) -> (r: Arc<Self>)
        requires
            v.tag() == Self::id_spec(),
        ensures
            r == Self::instance_of(*v),
    ;

    /// Construct the resource from its configuration value. The context
    /// carries the namespace this construction runs under and the
    /// registry itself, through which further resources and
    /// configuration values may be resolved recursively. A constructor
    /// may grow the cache through its own recursive resolutions, but
    /// never removes or replaces what others put there.
    fn create(config: Self::Config, context: AppContext<'_, V>) -> (r: Result<Self, ResolveError>)
        ensures
            Application::evolves(*old(context.app), *final(context.app)),
    ;
}

/// The construction context handed to a resource constructor.
pub struct AppContext<'a, V> {
    /// The registry, for recursive resolution during construction.
    pub app: &'a mut Application<V>,
    /// The namespace of the construction in flight.
    pub namespace: &'a str,
}

impl<'a, V: Erased> AppContext<'a, V> {
    /// The namespace of the construction in flight.
    pub fn get_namespace(&self) -> (r: &'a str)
        ensures
            r@ == self.namespace@,
    {
        self.namespace
    }

    /// Pass-through accessor: ask the configuration source for a value
    /// at a dotted path, unrelated to the section under construction.
    pub fn get_conf<T: ConfValue>(&self, key: &str) -> (r: Result<T, ResolveError>)
        requires
            self.app.inv(),
        ensures
            r matches Err(e) ==> e is Source,
    {
        (*self.app).get_conf(key)
    }
}

/// The registry: a configuration source plus the singleton cache of
/// shared, type-erased resource instances keyed by (type token,
/// namespace).
pub struct Application<V> {
    config: cfg_rs::Configuration,
    cache: Cache<V>,
}

/// The configuration path of a resource section: the resource's prefix
/// alone for the keyless (empty) namespace, else prefix '.' namespace.
pub open spec fn spec_section_path(prefix: Seq<char>, ns: Seq<char>) -> Seq<char> {
    if ns.len() == 0 {
        prefix
    } else {
        prefix + seq!['.'] + ns
    }
}

/// Compute the dotted configuration path of a resource's section.
pub fn section_path(prefix: &str, namespace: &str) -> (r: String)
    ensures
        r@ == spec_section_path(prefix@, namespace@),
{
    if namespace.is_empty() {
        prefix.to_owned()
    } else {
        let mut s = prefix.to_owned();
        s.append(".");
        s.append(namespace);
        proof {
            reveal_strlit(".");
            assert(s@ =~= spec_section_path(prefix@, namespace@));
        }
        s
    }
}

/// What a successful shared resolution of R under `ns` guarantees:
/// afterwards the cache holds a finished instance for the key and the
/// call returned exactly that instance; and the key's construction was
/// not in flight beforehand.
pub open spec fn shared_ok<V: Erased, R: Resource<V>>(
    pre: Cache<V>,
    post: Cache<V>,
    ns: Seq<char>,
    a: Arc<R>,
) -> bool {
    &&& post.ready_at(R::id_spec(), ns)
    &&& post.value_at(R::id_spec(), ns).tag() == R::id_spec()
    &&& a == R::instance_of(post.value_at(R::id_spec(), ns))
    &&& (pre.has(R::id_spec(), ns) ==> pre.slot_at(R::id_spec(), ns) is Ready)
}

/// What the cache answered for a shared lookup.
enum Found<R> {
    Value(Arc<R>),
    InFlight,
    Missing,
}

impl<V: Erased> Application<V> {
    /// The cache, for specifications.
    pub closed spec fn cache_view(&self) -> Cache<V> {
        self.cache
    }

    /// The configuration source, for specifications.
    pub closed spec fn config_view(&self) -> cfg_rs::Configuration {
        self.config
    }

    /// The registry invariant: the configuration source is one on which
    /// lookups return; one cache entry per key; and a finished value
    /// stored under a type token carries an instance of the type that
    /// registered that token — which is what makes taking instances back
    /// out of the erased store infallible.
    pub closed spec fn inv(&self) -> bool {
        &&& lookup_total(self.config)
        &&& self.cache.wf()
        &&& forall|t: u64, n: Seq<char>| #[trigger]
            self.cache.ready_at(t, n) ==> self.cache.value_at(t, n).tag() == t
    }

    /// How a registry may change across any resolution: the
    /// configuration source stays, finished and in-flight entries stay
    /// exactly as they are (new keys may appear), and the invariant is
    /// preserved.
    pub open spec fn evolves(pre: Self, post: Self) -> bool {
        &&& post.config_view() == pre.config_view()
        &&& Cache::extends(pre.cache_view(), post.cache_view())
        &&& (pre.inv() ==> post.inv())
    }

    /// Build a registry around a configuration source, with an empty
    /// cache. The source must be one on which `cfg_rs`'s lookup returns
    /// (see [`lookup_total`]): stored values whose `$` or `\` is
    /// followed by a character that is not ASCII make `cfg_rs` fault.
    pub fn new(config: cfg_rs::Configuration) -> (r: Self)
        requires
            lookup_total(config),
        ensures
            r.inv(),
            r.config_view() == config,
            forall|t: u64, n: Seq<char>| !(#[trigger] r.cache_view().has(t, n)),
    {
        Application { config, cache: Cache::new() }
    }

    /// Pass-through accessor: ask the configuration source for a value
    /// at a dotted path, unrelated to any resource section.
    pub fn get_conf<T: ConfValue>(&self, key: &str) -> (r: Result<T, ResolveError>)
        requires
            self.inv(),
        ensures
            r matches Err(e) ==> e is Source,
    {
        T::fetch(&self.config, key)
    }

    /// Resolve a fresh, non-shared instance of R under `namespace`:
    /// fetch the resource's configuration section at its dotted path and
    /// invoke the resource's constructor. The cache is neither consulted
    /// nor written here, so every call constructs anew; only the
    /// constructor's own recursive resolutions touch the cache.
    pub fn get_or_new<R: Resource<V>>(&mut self, namespace: &str) -> (r: Result<R, ResolveError>)
        requires
            old(self).inv(),
        ensures
            final(self).inv(),
            Self::evolves(*old(self), *final(self)),
    {
        let prefix = R::prefix_key();
        let path = section_path(prefix.as_str(), namespace);
        let fetched = R::Config::fetch(&self.config, path.as_str());
        self.construct::<R>(namespace, fetched)
    }

    /// Construct a fresh instance of R from an already fetched
    /// configuration section: a fetch failure is surfaced unchanged,
    /// with the registry untouched; a fetched value is handed to the
    /// resource's constructor under `namespace`.
    fn construct<R: Resource<V>>(
        &mut self,
        namespace: &str,
        fetched: Result<R::Config, ResolveError>,
    ) -> (r: Result<R, ResolveError>)
        requires
            old(self).inv(),
        ensures
            final(self).inv(),
            Self::evolves(*old(self), *final(self)),
            fetched matches Err(e) ==> r == Err::<R, ResolveError>(e) && *final(self) == *old(self),
    {
        let c = match fetched {
            Ok(c) => c,
            Err(e) => {
                return Err(e);
            },
        };
        R::create(c, AppContext { app: self, namespace })
    }

    /// Look up the shared instance of R under `namespace`.
    fn find_shared<R: Resource<V>>(&self, namespace: &str) -> (r: Found<R>)
        requires
            self.inv(),
        ensures
            match r {
                Found::Value(a) => {
                    &&& self.cache_view().ready_at(R::id_spec(), namespace@)
                    &&& self.cache_view().value_at(R::id_spec(), namespace@).tag() == R::id_spec()
                    &&& a == R::instance_of(self.cache_view().value_at(R::id_spec(), namespace@))
                },
                Found::InFlight => self.cache_view().pending_at(R::id_spec(), namespace@),
                Found::Missing => !self.cache_view().has(R::id_spec(), namespace@),
            },
    {
        let tid = R::type_id();
        match self.cache.probe(tid, namespace) {
            Probe::Absent => Found::Missing,
            Probe::Building => Found::InFlight,
            Probe::Done(v) => {
                proof {
                    assert(self.cache.ready_at(tid, namespace@));
                }
                Found::Value(R::extract(v))
            },
        }
    }

    /// Resolve the shared instance of R under `namespace`.
    ///
    /// The resource's configuration section is fetched first, as for a
    /// fresh resolution; [`Self::get_with`] then lets the cache decide.
    /// On a finished entry the call succeeds with the cached instance
    /// and changes nothing (a fetch failure on a finished entry is
    /// surfaced as the source's error, still changing nothing); a key
    /// whose construction is still in flight is re-entrant and fails
    /// fast instead of waiting on itself; an absent key is constructed
    /// at most once, and the entry appears only if construction
    /// succeeded, so a failed construction may be retried later.
    pub fn get<R: Resource<V>>(&mut self, namespace: &str) -> (r: Result<Arc<R>, ResolveError>)
        requires
            old(self).inv(),
        ensures
            final(self).inv(),
            Self::evolves(*old(self), *final(self)),
            old(self).cache_view().pending_at(R::id_spec(), namespace@) ==> r is Err
                && *final(self) == *old(self),
            old(self).cache_view().ready_at(R::id_spec(), namespace@) ==> *final(self) == *old(self) && (r matches Err(e) ==> e is Source),
            r matches Ok(a) ==> shared_ok::<V, R>(
                old(self).cache_view(),
                final(self).cache_view(),
                namespace@,
                a,
            ),
            r is Err ==> Cache::agree_at(
                old(self).cache_view(),
                final(self).cache_view(),
                R::id_spec(),
                namespace@,
            ),
    {
        let prefix = R::prefix_key();
        let path = section_path(prefix.as_str(), namespace);
        let fetched = R::Config::fetch(&self.config, path.as_str());
        self.get_with::<R>(namespace, fetched)
    }

    /// Resolve the shared instance of R under `namespace` from an
    /// already fetched configuration section: what [`Self::get`] does
    /// once the configuration source has answered.
    ///
    /// A fetch failure is surfaced unchanged and the registry is left
    /// untouched. With a section in hand, the cache alone decides: a
    /// finished entry is answered as it is — the call succeeds with the
    /// cached instance and the fetched section is discarded; a key whose
    /// construction is in flight is re-entrant and fails with exactly
    /// [`ResolveError::Recursive`], untouched; an absent key is handed
    /// to the constructor, whose verdict [`Self::finish_build`] records.
    pub fn get_with<R: Resource<V>>(
        &mut self,
        namespace: &str,
        fetched: Result<R::Config, ResolveError>,
    ) -> (r: Result<Arc<R>, ResolveError>)
        requires
            old(self).inv(),
        ensures
            final(self).inv(),
            Self::evolves(*old(self), *final(self)),
            fetched matches Err(e) ==> r == Err::<Arc<R>, ResolveError>(e) && *final(self) == *old(self),
            fetched is Ok && old(self).cache_view().pending_at(R::id_spec(), namespace@) ==> r
                == Err::<Arc<R>, ResolveError>(ResolveError::Recursive) && *final(self) == *old(self),
            fetched is Ok && old(self).cache_view().ready_at(R::id_spec(), namespace@) ==> *final(self) == *old(self) && (r matches Ok(a)
                && a == R::instance_of(old(self).cache_view().value_at(R::id_spec(), namespace@))),
            r matches Ok(a) ==> shared_ok::<V, R>(
                old(self).cache_view(),
                final(self).cache_view(),
                namespace@,
                a,
            ),
            r is Err ==> Cache::agree_at(
                old(self).cache_view(),
                final(self).cache_view(),
                R::id_spec(),
                namespace@,
            ),
    {
        let ghost c0 = self.cache;
        let c = match fetched {
            Ok(c) => c,
            Err(e) => {
                return Err(e);
            },
        };
        match self.find_shared::<R>(namespace) {
            Found::Value(a) => Ok(a),
            Found::InFlight => Err(ResolveError::Recursive),
            Found::Missing => {
                let tid = R::type_id();
                self.cache.begin(tid, namespace);
                proof {
                    Self::lemma_begin_keeps_inv(c0, self.cache, tid, namespace@);
                }
                let ghost c1 = self.cache;
                let built = R::create(c, AppContext { app: &mut *self, namespace });
                let ghost c2 = self.cache;
                let ghost gb = built;
                proof {
                    assert(Cache::extends(c1, c2));
                    assert(c1.pending_at(tid, namespace@));
                    assert(c1.has(tid, namespace@));
                    assert(c2.pending_at(tid, namespace@));
                }
                let r = self.finish_build::<R>(namespace, built);
                proof {
                    if gb is Ok {
                        Self::lemma_after_build(c0, c1, c2, self.cache, tid, namespace@);
                    } else {
                        Self::lemma_after_failed_build(c0, c1, c2, self.cache, tid, namespace@);
                    }
                }
                r
            },
        }
    }

    /// Record the constructor's verdict for a key whose construction is
    /// in flight: a success is cached and returned exactly as produced;
    /// a failure is surfaced unchanged and drops the in-flight marker,
    /// leaving the key absent so that a later resolution may retry. No
    /// other key is touched.
    fn finish_build<R: Resource<V>>(
        &mut self,
        namespace: &str,
        built: Result<R, ResolveError>,
    ) -> (r: Result<Arc<R>, ResolveError>)
        requires
            old(self).inv(),
            old(self).cache_view().pending_at(R::id_spec(), namespace@),
        ensures
            final(self).inv(),
            final(self).config_view() == old(self).config_view(),
            Cache::agree_except(
                old(self).cache_view(),
                final(self).cache_view(),
                R::id_spec(),
                namespace@,
            ),
            built matches Err(e) ==> r == Err::<Arc<R>, ResolveError>(e) && !final(self).cache_view().has(R::id_spec(), namespace@),
            built matches Ok(x) ==> r matches Ok(a) && *a == x && final(self).cache_view().ready_at(R::id_spec(), namespace@) && a == R::instance_of(
                final(self).cache_view().value_at(R::id_spec(), namespace@),
            ) && final(self).cache_view().value_at(R::id_spec(), namespace@).tag() == R::id_spec(),
    {
        let ghost c2 = self.cache;
        let tid = R::type_id();
        match built {
            Ok(x) => {
                let a = Arc::new(x);
                let v = R::erase(&a);
                self.cache.complete(tid, namespace, v);
                proof {
                    assert(self.cache.ready_at(tid, namespace@));
                    assert(self.cache.value_at(tid, namespace@) == v);
                    assert forall|t: u64, n: Seq<char>| #[trigger]
                        self.cache.ready_at(t, n) implies self.cache.value_at(t, n).tag() == t by {
                        if t != tid || n != namespace@ {
                            assert(Cache::agree_at(c2, self.cache, t, n));
                            assert(c2.ready_at(t, n));
                        }
                    }
                }
                Ok(a)
            },
            Err(e) => {
                self.cache.abandon(tid, namespace);
                proof {
                    assert forall|t: u64, n: Seq<char>| #[trigger]
                        self.cache.ready_at(t, n) implies self.cache.value_at(t, n).tag() == t by {
                        assert(t != tid || n != namespace@);
                        assert(Cache::agree_at(c2, self.cache, t, n));
                        assert(c2.ready_at(t, n));
                    }
                }
                Err(e)
            },
        }
    }

    /// Marking an absent key as in flight preserves the typed-storage
    /// invariant and every other key's state.
    proof fn lemma_begin_keeps_inv(c0: Cache<V>, c1: Cache<V>, tid: u64, ns: Seq<char>)
        requires
            c0.wf(),
            forall|t: u64, n: Seq<char>| #[trigger] c0.ready_at(t, n) ==> c0.value_at(t, n).tag()
                == t,
            !c0.has(tid, ns),
            c1.wf(),
            c1.pending_at(tid, ns),
            Cache::agree_except(c0, c1, tid, ns),
        ensures
            forall|t: u64, n: Seq<char>| #[trigger] c1.ready_at(t, n) ==> c1.value_at(t, n).tag()
                == t,
    {
        assert forall|t: u64, n: Seq<char>| #[trigger] c1.ready_at(t, n) implies c1.value_at(
            t,
            n,
        ).tag() == t by {
            if t == tid && n == ns {
                assert(c1.slot_at(t, n) is Pending);
            } else {
                assert(Cache::agree_at(c0, c1, t, n));
                assert(c0.ready_at(t, n));
            }
        }
    }

    /// After a successful construction was recorded, the whole
    /// resolution extends the starting cache and preserves the
    /// typed-storage invariant.
    proof fn lemma_after_build(
        c0: Cache<V>,
        c1: Cache<V>,
        c2: Cache<V>,
        c3: Cache<V>,
        tid: u64,
        ns: Seq<char>,
    )
        requires
            !c0.has(tid, ns),
            Cache::agree_except(c0, c1, tid, ns),
            Cache::extends(c1, c2),
            forall|t: u64, n: Seq<char>| #[trigger] c2.ready_at(t, n) ==> c2.value_at(t, n).tag()
                == t,
            c3.ready_at(tid, ns),
            c3.value_at(tid, ns).tag() == tid,
            Cache::agree_except(c2, c3, tid, ns),
        ensures
            Cache::extends(c0, c3),
            forall|t: u64, n: Seq<char>| #[trigger] c3.ready_at(t, n) ==> c3.value_at(t, n).tag()
                == t,
    {
        assert forall|t: u64, n: Seq<char>| #[trigger] c0.has(t, n) implies c3.has(t, n)
            && c0.slot_at(t, n) == c3.slot_at(t, n) by {
            assert(t != tid || n != ns);
            assert(Cache::agree_at(c0, c1, t, n));
            assert(c1.has(t, n));
            assert(Cache::agree_at(c2, c3, t, n));
        }
        assert forall|t: u64, n: Seq<char>| #[trigger] c3.ready_at(t, n) implies c3.value_at(
            t,
            n,
        ).tag() == t by {
            if t != tid || n != ns {
                assert(Cache::agree_at(c2, c3, t, n));
                assert(c2.ready_at(t, n));
            }
        }
    }

    /// After a failed construction was abandoned, the whole resolution
    /// extends the starting cache, leaves the failed key absent as it
    /// was, and preserves the typed-storage invariant.
    proof fn lemma_after_failed_build(
        c0: Cache<V>,
        c1: Cache<V>,
        c2: Cache<V>,
        c3: Cache<V>,
        tid: u64,
        ns: Seq<char>,
    )
        requires
            !c0.has(tid, ns),
            Cache::agree_except(c0, c1, tid, ns),
            Cache::extends(c1, c2),
            forall|t: u64, n: Seq<char>| #[trigger] c2.ready_at(t, n) ==> c2.value_at(t, n).tag()
                == t,
            !c3.has(tid, ns),
            Cache::agree_except(c2, c3, tid, ns),
        ensures
            Cache::extends(c0, c3),
            !c3.has(tid, ns),
            forall|t: u64, n: Seq<char>| #[trigger] c3.ready_at(t, n) ==> c3.value_at(t, n).tag()
                == t,
    {
        assert forall|t: u64, n: Seq<char>| #[trigger] c0.has(t, n) implies c3.has(t, n)
            && c0.slot_at(t, n) == c3.slot_at(t, n) by {
            assert(t != tid || n != ns);
            assert(Cache::agree_at(c0, c1, t, n));
            assert(c1.has(t, n));
            assert(Cache::agree_at(c2, c3, t, n));
        }
        assert forall|t: u64, n: Seq<char>| #[trigger] c3.ready_at(t, n) implies c3.value_at(
            t,
            n,
        ).tag() == t by {
            assert(t != tid || n != ns);
            assert(Cache::agree_at(c2, c3, t, n));
            assert(c2.ready_at(t, n));
        }
    }
}

impl<V: Erased> Default for Application<V> {
    /// A registry around an empty configuration source: every lookup
    /// reports its key missing, and nothing is cached yet.
    fn default() -> (r: Self)
        ensures
            r.inv(),
            forall|t: u64, n: Seq<char>| !(#[trigger] r.cache_view().has(t, n)),
    {
        Application::new(empty_configuration())
    }
}

} // verus!
