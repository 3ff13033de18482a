use vstd::prelude::*;

verus! {

/// State of one cache slot: a construction still in flight, or the
/// finished, shared value.
pub enum Slot<V> {
    /// The factory for this key has been entered and has not returned:
    /// a second request for the key while in this state is re-entrant.
    Pending,
    /// Construction finished; every later lookup of the key is answered
    /// with this value.
    Ready(V),
}

/// One cache entry: the key (type token, namespace) and its slot.
struct Entry<V> {
    type_id: u64,
    namespace: String,
    slot: Slot<V>,
}

/// The singleton cache: a table from (type token, namespace) keys to
/// slots, with at most one entry per key.
///
/// The recursion guard is the explicit [`Slot::Pending`] marker, held
/// per key: a construction chain that asks again for a key whose own
/// construction has not returned finds the marker and fails fast, while
/// constructions of unrelated keys proceed.
pub struct Cache<V> {
    entries: Vec<Entry<V>>,
}

/// What a lookup found for a key.
pub enum Probe<'a, V> {
    /// No entry: the key has never been completed and is not in flight.
    Absent,
    /// The key's construction is in flight (re-entrant to ask again).
    Building,
    /// The key's finished value.
    Done(&'a V),
}

impl<V> Cache<V> {
    /// The key of the entry at index `i`.
    spec fn key_at(&self, i: int) -> (u64, Seq<char>) {
        (self.entries@[i].type_id, self.entries@[i].namespace@)
    }

    /// Well-formed: at most one entry per key.
    pub closed spec fn wf(&self) -> bool {
        forall|i: int, j: int|
            #![trigger self.key_at(i), self.key_at(j)]
            0 <= i < j < self.entries@.len() ==> self.key_at(i) != self.key_at(j)
    }

    /// The key (tid, ns) has an entry.
    pub closed spec fn has(&self, tid: u64, ns: Seq<char>) -> bool {
        exists|i: int| 0 <= i < self.entries@.len() && #[trigger] self.key_at(i) == (tid, ns)
    }

    /// Index of the key's entry (meaningful when `has`).
    spec fn idx_of(&self, tid: u64, ns: Seq<char>) -> int {
        choose|i: int| 0 <= i < self.entries@.len() && #[trigger] self.key_at(i) == (tid, ns)
    }

    /// The key's slot (meaningful when `has`).
    pub closed spec fn slot_at(&self, tid: u64, ns: Seq<char>) -> Slot<V> {
        self.entries@[self.idx_of(tid, ns)].slot
    }

    /// The key's construction is in flight.
    pub open spec fn pending_at(&self, tid: u64, ns: Seq<char>) -> bool {
        self.has(tid, ns) && self.slot_at(tid, ns) is Pending
    }

    /// The key holds a finished value.
    pub open spec fn ready_at(&self, tid: u64, ns: Seq<char>) -> bool {
        self.has(tid, ns) && self.slot_at(tid, ns) is Ready
    }

    /// The finished value at the key (meaningful when `ready_at`).
    pub open spec fn value_at(&self, tid: u64, ns: Seq<char>) -> V {
        self.slot_at(tid, ns)->Ready_0
    }

    /// The two caches agree at the given key.
    pub open spec fn agree_at(a: Self, b: Self, tid: u64, ns: Seq<char>) -> bool {
        &&& a.has(tid, ns) == b.has(tid, ns)
        &&& (a.has(tid, ns) ==> a.slot_at(tid, ns) == b.slot_at(tid, ns))
    }

    /// The two caches agree at every key but (tid, ns).
    pub open spec fn agree_except(a: Self, b: Self, tid: u64, ns: Seq<char>) -> bool {
        forall|t2: u64, n2: Seq<char>|
            t2 != tid || n2 != ns ==> #[trigger] Self::agree_at(a, b, t2, n2)
    }

    /// Every entry of `a` is still in `b`, with the same slot. New keys
    /// may have appeared in `b`; no old key changed or vanished.
    pub open spec fn extends(a: Self, b: Self) -> bool {
        forall|t2: u64, n2: Seq<char>| #[trigger]
            a.has(t2, n2) ==> b.has(t2, n2) && a.slot_at(t2, n2) == b.slot_at(t2, n2)
    }

    /// If index `i` carries the key, it is the key's entry: the one the
    /// lookup specs speak of.
    proof fn lemma_entry_at(&self, i: int, tid: u64, ns: Seq<char>)
        requires
            self.wf(),
            0 <= i < self.entries@.len(),
            self.key_at(i) == (tid, ns),
        ensures
            self.has(tid, ns),
            self.idx_of(tid, ns) == i,
            self.slot_at(tid, ns) == self.entries@[i].slot,
    {
        assert(self.has(tid, ns));
        let j = self.idx_of(tid, ns);
        assert(0 <= j < self.entries@.len() && self.key_at(j) == (tid, ns));
        if i < j {
            assert(self.key_at(i) != self.key_at(j));
        } else if j < i {
            assert(self.key_at(j) != self.key_at(i));
        }
    }

    /// A fresh, empty cache.
    pub fn new() -> (r: Self)
        ensures
            r.wf(),
            forall|t2: u64, n2: Seq<char>| !(#[trigger] r.has(t2, n2)),
    {
        Cache { entries: Vec::new() }
    }

    /// Index of the key's entry, by linear search.
    fn position(&self, tid: u64, ns: &String) -> (r: Option<usize>)
        requires
            self.wf(),
        ensures
            match r {
                Some(i) => i < self.entries@.len() && self.key_at(i as int) == (tid, ns@),
                None => !self.has(tid, ns@),
            },
    {
        let n = self.entries.len();
        let mut i: usize = 0;
        while i < n
            invariant
                n == self.entries@.len(),
                i <= n,
                forall|j: int| 0 <= j < i ==> #[trigger] self.key_at(j) != (tid, ns@),
            decreases n - i,
        {
            let e = &self.entries[i];
            if e.type_id == tid && e.namespace == *ns {
                return Some(i);
            }
            assert(self.key_at(i as int) != (tid, ns@));
            i += 1;
        }
        None
    }

    /// What the cache holds for the key.
    pub fn probe<'a>(&'a self, tid: u64, ns: &str) -> (r: Probe<'a, V>)
        requires
            self.wf(),
        ensures
            match r {
                Probe::Absent => !self.has(tid, ns@),
                Probe::Building => self.pending_at(tid, ns@),
                Probe::Done(v) => self.ready_at(tid, ns@) && *v == self.value_at(tid, ns@),
            },
    {
        let key = ns.to_owned();
        match self.position(tid, &key) {
            None => Probe::Absent,
            Some(i) => {
                proof {
                    self.lemma_entry_at(i as int, tid, ns@);
                }
                match &self.entries[i].slot {
                    Slot::Pending => Probe::Building,
                    Slot::Ready(v) => Probe::Done(v),
                }
            },
        }
    }

    /// Mark the key as in construction.
    pub fn begin(&mut self, tid: u64, ns: &str)
        requires
            old(self).wf(),
            !old(self).has(tid, ns@),
        ensures
            final(self).wf(),
            final(self).pending_at(tid, ns@),
            Self::agree_except(*old(self), *final(self), tid, ns@),
    {
        let ghost pre = *self;
        self.entries.push(Entry { type_id: tid, namespace: ns.to_owned(), slot: Slot::Pending });
        proof {
            let len = pre.entries@.len() as int;
            assert forall|i: int| 0 <= i < len implies #[trigger] self.entries@[i]
                == pre.entries@[i] by {}
            assert forall|i: int| 0 <= i < len implies #[trigger] self.key_at(i) == pre.key_at(
                i,
            ) by {
                assert(self.entries@[i] == pre.entries@[i]);
            }
            assert forall|i: int| 0 <= i < len implies #[trigger] pre.key_at(i) != (tid, ns@) by {
                if pre.key_at(i) == (tid, ns@) {
                    assert(pre.has(tid, ns@));
                }
            }
            assert(self.key_at(len) == (tid, ns@));
            assert(self.wf());
            self.lemma_entry_at(len, tid, ns@);
            assert(self.entries@[len].slot is Pending);
            assert forall|t2: u64, n2: Seq<char>| t2 != tid || n2 != ns@ implies #[trigger] Self::agree_at(
                pre,
                *self,
                t2,
                n2,
            ) by {
                Self::lemma_grown_agrees(pre, *self, len, tid, ns@, t2, n2);
            }
        }
    }

    /// Record the finished value for a key whose construction was begun.
    pub fn complete(&mut self, tid: u64, ns: &str, v: V)
        requires
            old(self).wf(),
            old(self).pending_at(tid, ns@),
        ensures
            final(self).wf(),
            final(self).ready_at(tid, ns@),
            final(self).value_at(tid, ns@) == v,
            Self::agree_except(*old(self), *final(self), tid, ns@),
    {
        let ghost pre = *self;
        let key = ns.to_owned();
        match self.position(tid, &key) {
            Some(i) => {
                proof {
                    pre.lemma_entry_at(i as int, tid, ns@);
                }
                let e = &mut self.entries[i];
                e.slot = Slot::Ready(v);
                proof {
                    let len = pre.entries@.len() as int;
                    let gi = i as int;
                    assert forall|j: int| 0 <= j < len && j != gi implies #[trigger] self.entries@[j]
                        == pre.entries@[j] by {}
                    assert(self.entries@[gi].type_id == pre.entries@[gi].type_id);
                    assert(self.entries@[gi].namespace == pre.entries@[gi].namespace);
                    assert forall|j: int| 0 <= j < len implies #[trigger] self.key_at(j)
                        == pre.key_at(j) by {
                        if j != gi {
                            assert(self.entries@[j] == pre.entries@[j]);
                        }
                    }
                    assert(self.wf());
                    self.lemma_entry_at(gi, tid, ns@);
                    assert(self.entries@[gi].slot == Slot::Ready(v));
                    assert forall|t2: u64, n2: Seq<char>|
                        t2 != tid || n2 != ns@ implies #[trigger] Self::agree_at(
                        pre,
                        *self,
                        t2,
                        n2,
                    ) by {
                        Self::lemma_updated_agrees(pre, *self, gi, tid, ns@, t2, n2);
                    }
                }
            },
            None => unreached(),
        }
    }

    /// Drop the in-flight marker of a key whose construction failed, so
    /// that a later resolution may retry the construction.
    pub fn abandon(&mut self, tid: u64, ns: &str)
        requires
            old(self).wf(),
            old(self).pending_at(tid, ns@),
        ensures
            final(self).wf(),
            !final(self).has(tid, ns@),
            Self::agree_except(*old(self), *final(self), tid, ns@),
    {
        let ghost pre = *self;
        let key = ns.to_owned();
        match self.position(tid, &key) {
            Some(i) => {
                proof {
                    pre.lemma_entry_at(i as int, tid, ns@);
                }
                self.entries.remove(i);
                proof {
                    let len = pre.entries@.len() as int;
                    let gi = i as int;
                    pre.entries@.remove_ensures(gi);
                    assert forall|j: int| 0 <= j < gi implies #[trigger] self.key_at(j)
                        == pre.key_at(j) by {
                        assert(self.entries@[j] == pre.entries@[j]);
                    }
                    assert forall|j: int| gi <= j < len - 1 implies #[trigger] self.key_at(j)
                        == pre.key_at(j + 1) by {
                        assert(self.entries@[j] == pre.entries@[j + 1]);
                    }
                    assert forall|j: int, j2: int|
                        #![trigger self.key_at(j), self.key_at(j2)]
                        0 <= j < j2 < len - 1 implies self.key_at(j) != self.key_at(j2) by {
                        let pj = if j < gi {
                            j
                        } else {
                            j + 1
                        };
                        let pj2 = if j2 < gi {
                            j2
                        } else {
                            j2 + 1
                        };
                        assert(pre.key_at(pj) != pre.key_at(pj2));
                    }
                    assert(self.wf());
                    assert forall|j: int| 0 <= j < len - 1 implies #[trigger] self.key_at(j) != (
                    tid,
                    ns@,
                    ) by {
                        let pj = if j < gi {
                            j
                        } else {
                            j + 1
                        };
                        assert(self.key_at(j) == pre.key_at(pj));
                        if pre.key_at(pj) == (tid, ns@) {
                            pre.lemma_entry_at(pj, tid, ns@);
                        }
                    }
                    assert(!self.has(tid, ns@));
                    assert forall|t2: u64, n2: Seq<char>|
                        t2 != tid || n2 != ns@ implies #[trigger] Self::agree_at(
                        pre,
                        *self,
                        t2,
                        n2,
                    ) by {
                        Self::lemma_removed_agrees(pre, *self, gi, tid, ns@, t2, n2);
                    }
                }
            },
            None => unreached(),
        }
    }

    /// If the caches hold entries with the same keys everywhere, and
    /// differ at most in the slot at index `i`, whose key is (tid, ns),
    /// every other key's state is untouched.
    proof fn lemma_updated_agrees(
        pre: Self,
        post: Self,
        i: int,
        tid: u64,
        ns: Seq<char>,
        t2: u64,
        n2: Seq<char>,
    )
        requires
            pre.wf(),
            post.wf(),
            pre.entries@.len() == post.entries@.len(),
            0 <= i < pre.entries@.len(),
            forall|j: int|
                0 <= j < pre.entries@.len() && j != i ==> #[trigger] post.entries@[j]
                    == pre.entries@[j],
            pre.key_at(i) == (tid, ns),
            post.key_at(i) == (tid, ns),
            t2 != tid || n2 != ns,
        ensures
            Self::agree_at(pre, post, t2, n2),
    {
        assert forall|j: int|
            0 <= j < pre.entries@.len() && j != i implies #[trigger] post.key_at(j) == pre.key_at(
            j,
        ) by {
            assert(post.entries@[j] == pre.entries@[j]);
        }
        if pre.has(t2, n2) {
            let j = pre.idx_of(t2, n2);
            pre.lemma_entry_at(j, t2, n2);
            assert(j != i);
            post.lemma_entry_at(j, t2, n2);
        }
        if post.has(t2, n2) {
            let j = post.idx_of(t2, n2);
            post.lemma_entry_at(j, t2, n2);
            assert(j != i);
            pre.lemma_entry_at(j, t2, n2);
        }
    }

    /// After removing the entry at index `i`, whose key is (tid, ns),
    /// every other key's state is untouched.
    proof fn lemma_removed_agrees(
        pre: Self,
        post: Self,
        i: int,
        tid: u64,
        ns: Seq<char>,
        t2: u64,
        n2: Seq<char>,
    )
        requires
            pre.wf(),
            post.wf(),
            0 <= i < pre.entries@.len(),
            post.entries@ == pre.entries@.remove(i),
            pre.key_at(i) == (tid, ns),
            t2 != tid || n2 != ns,
        ensures
            Self::agree_at(pre, post, t2, n2),
    {
        let len = pre.entries@.len() as int;
        pre.entries@.remove_ensures(i);
        assert forall|j: int| 0 <= j < i implies #[trigger] post.key_at(j) == pre.key_at(j) by {
            assert(post.entries@[j] == pre.entries@[j]);
        }
        assert forall|j: int| i <= j < len - 1 implies #[trigger] post.key_at(j) == pre.key_at(
            j + 1,
        ) by {
            assert(post.entries@[j] == pre.entries@[j + 1]);
        }
        if pre.has(t2, n2) {
            let j = pre.idx_of(t2, n2);
            pre.lemma_entry_at(j, t2, n2);
            assert(j != i);
            let j2 = if j < i {
                j
            } else {
                j - 1
            };
            assert(post.key_at(j2) == (t2, n2));
            post.lemma_entry_at(j2, t2, n2);
        }
        if post.has(t2, n2) {
            let j = post.idx_of(t2, n2);
            post.lemma_entry_at(j, t2, n2);
            let pj = if j < i {
                j
            } else {
                j + 1
            };
            assert(pre.key_at(pj) == (t2, n2));
            pre.lemma_entry_at(pj, t2, n2);
        }
    }

    /// After adding one entry with key (tid, ns) at index `len` and
    /// touching nothing else, every other key's state is untouched.
    proof fn lemma_grown_agrees(
        pre: Self,
        post: Self,
        len: int,
        tid: u64,
        ns: Seq<char>,
        t2: u64,
        n2: Seq<char>,
    )
        requires
            pre.wf(),
            post.wf(),
            post.entries@.len() == len + 1,
            pre.entries@.len() == len,
            forall|i: int| 0 <= i < len ==> #[trigger] post.entries@[i] == pre.entries@[i],
            post.key_at(len) == (tid, ns),
            t2 != tid || n2 != ns,
        ensures
            Self::agree_at(pre, post, t2, n2),
    {
        assert forall|i: int| 0 <= i < len implies #[trigger] post.key_at(i) == pre.key_at(i) by {
            assert(post.entries@[i] == pre.entries@[i]);
        }
        if pre.has(t2, n2) {
            let i = pre.idx_of(t2, n2);
            pre.lemma_entry_at(i, t2, n2);
            post.lemma_entry_at(i, t2, n2);
        }
        if post.has(t2, n2) {
            let i = post.idx_of(t2, n2);
            post.lemma_entry_at(i, t2, n2);
            if i < len {
                pre.lemma_entry_at(i, t2, n2);
            } else {
                assert(post.key_at(i) == (tid, ns));
            }
        }
    }
}

} // verus!
