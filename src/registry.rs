//! Handle-based asset registry.

use std::collections::HashMap;
use std::sync::Arc;
use vstd::prelude::*;

verus! {

broadcast use vstd::std_specs::hash::group_hash_axioms;

/// An opaque, copyable identifier of one asset in one registry.
///
/// Handles come from a counter that only grows, so a handle is never handed
/// out twice by the same registry.
#[derive(Clone, Copy, Debug, PartialEq, Eq, Hash, Structural)]
pub struct Handle(pub u64);

/// Relies on `Arc::clone`: the new pointer shares the allocation, so it
/// refers to the same value.
#[verifier::external_body]
pub(crate) fn share<T>(a: &Arc<T>) -> (r: Arc<T>)
    ensures
        r == *a,
{
    Arc::clone(a)
}

/// A table from handles to shared, reference-counted assets.
pub struct AssetRegistry<T> {
    assets: HashMap<u64, Arc<T>>,
    next_handle: u64,
}

impl<T> AssetRegistry<T> {
    /// The live assets, keyed by handle number.
    pub closed spec fn assets(&self) -> Map<u64, Arc<T>> {
        self.assets@
    }

    /// The number that the next `insert` hands out.
    pub closed spec fn next_handle(&self) -> u64 {
        self.next_handle
    }

    /// Every live handle was handed out before the counter moved past it.
    pub closed spec fn wf(&self) -> bool {
        forall|k: u64| #[trigger] self.assets@.contains_key(k) ==> k < self.next_handle
    }

    pub fn new() -> (r: Self)
        ensures
            r.wf(),
            r.assets() == Map::<u64, Arc<T>>::empty(),
            r.next_handle() == 0,
    {
        let r = AssetRegistry { assets: HashMap::new(), next_handle: 0 };
        assert(r.assets() =~= Map::<u64, Arc<T>>::empty());
        r
    }

    /// Whether the handle counter has run out, so that no further `insert`
    /// is possible.
    pub fn is_exhausted(&self) -> (r: bool)
        ensures
            r == (self.next_handle() == u64::MAX),
    {
        self.next_handle == u64::MAX
    }

    /// Stores `asset` under a fresh handle.  The counter must not be
    /// exhausted: running out of handles is a fatal configuration limit.
    pub fn insert(&mut self, asset: Arc<T>) -> (h: Handle)
        requires
            old(self).wf(),
            old(self).next_handle() < u64::MAX,
        ensures
            final(self).wf(),
            h.0 == old(self).next_handle(),
            final(self).next_handle() == old(self).next_handle() + 1,
            !old(self).assets().contains_key(h.0),
            final(self).assets() == old(self).assets().insert(h.0, asset),
    {
        let h = Handle(self.next_handle);
        self.next_handle = self.next_handle + 1;
        self.assets.insert(h.0, asset);
        assert(self.assets() =~= old(self).assets().insert(h.0, asset));
        h
    }

    /// The asset under `handle`, or `None` when the handle is unknown or
    /// was removed.
    pub fn get(&self, handle: Handle) -> (r: Option<Arc<T>>)
        ensures
            match r {
                Some(a) => self.assets().contains_key(handle.0) && a == self.assets()[handle.0],
                None => !self.assets().contains_key(handle.0),
            },
    {
        match self.assets.get(&handle.0) {
            Some(a) => Some(share(a)),
            None => None,
        }
    }

    /// Takes the asset under `handle` out of the table.  A second removal
    /// of the same handle finds nothing.
    pub fn remove(&mut self, handle: Handle) -> (r: Option<Arc<T>>)
        requires
            old(self).wf(),
        ensures
            final(self).wf(),
            final(self).next_handle() == old(self).next_handle(),
            final(self).assets() == old(self).assets().remove(handle.0),
            match r {
                Some(a) => old(self).assets().contains_key(handle.0) && a == old(self).assets()[handle.0],
                None => !old(self).assets().contains_key(handle.0),
            },
    {
        let r = self.assets.remove(&handle.0);
        assert(self.assets() =~= old(self).assets().remove(handle.0));
        r
    }
}

/// One `insert` on `before` that handed out `h` and left `after`.
pub open spec fn insert_step<T>(before: AssetRegistry<T>, after: AssetRegistry<T>, h: Handle) -> bool {
    &&& h.0 == before.next_handle()
    &&& after.next_handle() == before.next_handle() + 1
    &&& after.assets() == before.assets().insert(h.0, after.assets()[h.0])
}

proof fn lemma_counter_advances<T>(states: Seq<AssetRegistry<T>>, handles: Seq<Handle>, i: int)
    requires
        states.len() == handles.len() + 1,
        forall|k: int| 0 <= k < handles.len() ==> insert_step(#[trigger] states[k], states[k + 1], handles[k]),
        0 <= i < states.len(),
    ensures
        states[i].next_handle() == states[0].next_handle() + i,
    decreases i,
{
    if i > 0 {
        lemma_counter_advances(states, handles, i - 1);
        assert(insert_step(states[i - 1], states[i], handles[i - 1]));
    }
}

/// Over any run of inserts, the handles handed out are pairwise distinct and
/// strictly increasing.
pub proof fn lemma_insert_handles_increase<T>(states: Seq<AssetRegistry<T>>, handles: Seq<Handle>)
    requires
        states.len() == handles.len() + 1,
        forall|k: int| 0 <= k < handles.len() ==> insert_step(#[trigger] states[k], states[k + 1], handles[k]),
    ensures
        forall|i: int, j: int| 0 <= i < j < handles.len() ==> handles[i].0 < handles[j].0,
{
    assert forall|i: int, j: int| 0 <= i < j < handles.len() implies handles[i].0 < handles[j].0 by {
        lemma_counter_advances(states, handles, i);
        lemma_counter_advances(states, handles, j);
        assert(insert_step(states[i], states[i + 1], handles[i]));
        assert(insert_step(states[j], states[j + 1], handles[j]));
    }
}

/// After `remove(h)` the handle resolves to nothing, and removing it again
/// changes nothing, however often it is repeated.
pub proof fn lemma_removed_handle_is_absent<T>(before: AssetRegistry<T>, after: AssetRegistry<T>, h: Handle)
    requires
        after.assets() == before.assets().remove(h.0),
    ensures
        !after.assets().contains_key(h.0),
        after.assets().remove(h.0) == after.assets(),
{
    assert(after.assets().remove(h.0) =~= after.assets());
}

} // verus!
