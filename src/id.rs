//! Stable widget identities. Generated ids come from a counter that never
//! goes back, so no id is handed out twice; an explicit key is bound, on its
//! first use, to a run of fresh ids of the arity it was declared with.
use vstd::prelude::*;

verus! {

/// A widget identity.
pub type WidgetId = u64;

/// Why an explicit key could not be resolved.
#[derive(Clone, Copy, Debug, PartialEq, Eq, Structural)]
pub enum IdError {
    /// The key was already bound to `existing` ids and is now asked for `requested`.
    ArityConflict { key: u64, existing: u64, requested: u64 },
    /// The id space is used up.
    Exhausted,
}

/// One explicit key, the first id of its run and the run's length.
#[derive(Clone, Copy, Debug, PartialEq, Eq, Structural)]
pub struct Binding {
    pub key: u64,
    pub first: u64,
    pub arity: u64,
}

/// Hands out widget ids for one graph.
pub struct IdRegistry {
    next: u64,
    bindings: Vec<Binding>,
}

impl IdRegistry {
    /// The first id that has not been handed out.
    pub closed spec fn next_id(&self) -> nat {
        self.next as nat
    }

    /// The explicit keys bound so far, each to its first id and arity.
    pub closed spec fn keys(&self) -> Map<u64, (u64, u64)> {
        Map::new(
            |k: u64| exists|i: int| 0 <= i < self.bindings@.len() && self.bindings@[i].key == k,
            |k: u64|
                {
                    let i = choose|i: int|
                        0 <= i < self.bindings@.len() && self.bindings@[i].key == k;
                    (self.bindings@[i].first, self.bindings@[i].arity)
                },
        )
    }

    /// Keys are bound once, and every bound run lies below the next id.
    pub closed spec fn wf(&self) -> bool {
        &&& forall|i: int, j: int|
            0 <= i < j < self.bindings@.len() ==> #[trigger] self.bindings@[i].key
                != #[trigger] self.bindings@[j].key
        &&& forall|i: int|
            0 <= i < self.bindings@.len() ==> #[trigger] self.bindings@[i].first
                + self.bindings@[i].arity <= self.next
    }

    /// An empty registry.
    pub fn new() -> (r: IdRegistry)
        ensures
            r.wf(),
            r.next_id() == 0,
            r.keys() == Map::<u64, (u64, u64)>::empty(),
    {
        let r = IdRegistry { next: 0, bindings: Vec::new() };
        assert(r.keys() =~= Map::<u64, (u64, u64)>::empty());
        r
    }

    /// How many ids have been handed out; the next fresh id.
    pub fn issued(&self) -> (r: u64)
        ensures
            r == self.next_id(),
    {
        self.next
    }

    /// A fresh id, distinct from every id handed out before.
    pub fn new_unique_id(&mut self) -> (r: Result<WidgetId, IdError>)
        requires
            old(self).wf(),
        ensures
            final(self).wf(),
            final(self).keys() == old(self).keys(),
            old(self).next_id() < u64::MAX ==> r == Ok::<u64, IdError>(old(self).next_id() as u64)
                && final(self).next_id() == old(self).next_id() + 1,
            old(self).next_id() == u64::MAX ==> r == Err::<u64, IdError>(IdError::Exhausted)
                && final(self).next_id() == old(self).next_id(),
    {
        if self.next == u64::MAX {
            return Err(IdError::Exhausted);
        }
        let id = self.next;
        self.next = self.next + 1;
        Ok(id)
    }

    /// The first id of the run bound to `key`, binding `arity` fresh ids to it
    /// on first use. Asking again with the same arity gives the same id; asking
    /// with another arity fails and changes nothing.
    pub fn resolve(&mut self, key: u64, arity: u64) -> (r: Result<WidgetId, IdError>)
        requires
            old(self).wf(),
        ensures
            final(self).wf(),
            old(self).keys().contains_key(key) ==> {
                let (first, n) = old(self).keys()[key];
                &&& *final(self) == *old(self)
                &&& n == arity ==> r == Ok::<u64, IdError>(first)
                &&& n != arity ==> r == Err::<u64, IdError>(
                    IdError::ArityConflict { key, existing: n, requested: arity },
                )
            },
            !old(self).keys().contains_key(key) && old(self).next_id() + arity <= u64::MAX ==> {
                &&& r == Ok::<u64, IdError>(old(self).next_id() as u64)
                &&& final(self).next_id() == old(self).next_id() + arity
                &&& final(self).keys() == old(self).keys().insert(key, (old(self).next_id() as u64, arity))
            },
            !old(self).keys().contains_key(key) && old(self).next_id() + arity > u64::MAX ==> r
                == Err::<u64, IdError>(IdError::Exhausted) && *final(self) == *old(self),
    {
        let mut i: usize = 0;
        while i < self.bindings.len()
            invariant
                0 <= i <= self.bindings@.len(),
                self.wf(),
                *self == *old(self),
                forall|j: int| 0 <= j < i ==> self.bindings@[j].key != key,
            decreases self.bindings@.len() - i,
        {
            let b = self.bindings[i];
            if b.key == key {
                proof {
                    assert(self.keys().contains_key(key));
                    let c = choose|c: int|
                        0 <= c < self.bindings@.len() && self.bindings@[c].key == key;
                    assert(self.bindings@[c].key == self.bindings@[i as int].key);
                    assert(c == i);
                }
                if b.arity == arity {
                    return Ok(b.first);
                } else {
                    return Err(IdError::ArityConflict { key, existing: b.arity, requested: arity });
                }
            }
            i = i + 1;
        }
        assert(!self.keys().contains_key(key));
        if arity > u64::MAX - self.next {
            return Err(IdError::Exhausted);
        }
        let first = self.next;
        let ghost old_self = *self;
        self.bindings.push(Binding { key, first, arity });
        self.next = self.next + arity;
        proof {
            let m = old_self.keys().insert(key, (first, arity));
            assert forall|k: u64| #[trigger] self.keys().contains_key(k) == m.contains_key(k) by {
                if k != key && m.contains_key(k) {
                    let c = choose|c: int|
                        0 <= c < old_self.bindings@.len() && old_self.bindings@[c].key == k;
                    assert(self.bindings@[c].key == k);
                }
                if k == key {
                    assert(self.bindings@[self.bindings@.len() - 1].key == k);
                }
            }
            assert forall|k: u64| #[trigger] self.keys().contains_key(k) implies self.keys()[k]
                == m[k] by {
                let c = choose|c: int|
                    0 <= c < self.bindings@.len() && self.bindings@[c].key == k;
                if k != key {
                    let d = choose|d: int|
                        0 <= d < old_self.bindings@.len() && old_self.bindings@[d].key == k;
                    assert(self.bindings@[d].key == k);
                    assert(c == d);
                } else {
                    assert(c == self.bindings@.len() - 1);
                }
            }
            assert(self.keys() =~= m);
        }
        Ok(first)
    }
}

/// Resolving the same key twice in a row, with the same arity, gives the same
/// id both times and binds nothing new the second time.
pub proof fn lemma_resolve_idempotent(
    before: IdRegistry,
    middle: IdRegistry,
    after: IdRegistry,
    key: u64,
    arity: u64,
    first: WidgetId,
    second: WidgetId,
)
    requires
        before.wf(),
        resolved(before, key, arity, middle, Ok::<u64, IdError>(first)),
        resolved(middle, key, arity, after, Ok::<u64, IdError>(second)),
    ensures
        first == second,
        after == middle,
{
}

/// `after` and `r` are a possible outcome of `before.resolve(key, arity)`, as
/// that method's contract describes it.
pub open spec fn resolved(
    before: IdRegistry,
    key: u64,
    arity: u64,
    after: IdRegistry,
    r: Result<WidgetId, IdError>,
) -> bool {
    &&& after.wf()
    &&& before.keys().contains_key(key) ==> {
        let (first, n) = before.keys()[key];
        &&& after == before
        &&& n == arity ==> r == Ok::<u64, IdError>(first)
        &&& n != arity ==> r == Err::<u64, IdError>(
            IdError::ArityConflict { key, existing: n, requested: arity },
        )
    }
    &&& !before.keys().contains_key(key) && before.next_id() + arity <= u64::MAX ==> {
        &&& r == Ok::<u64, IdError>(before.next_id() as u64)
        &&& after.next_id() == before.next_id() + arity
        &&& after.keys() == before.keys().insert(key, (before.next_id() as u64, arity))
    }
    &&& !before.keys().contains_key(key) && before.next_id() + arity > u64::MAX ==> r == Err::<
        u64,
        IdError,
    >(IdError::Exhausted) && after == before
}

} // verus!
