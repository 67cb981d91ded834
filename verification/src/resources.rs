//! The resource table: objects handed to the frontend by a numeric id (the resource id, or rid),
//! as file descriptors are.
//!
//! A table holds resources of one type `T`; a resource is shared (`Arc`) with whoever took it out.

use vstd::prelude::*;

use crate::error::Error;
use std::collections::BTreeMap;
use vstd::laws_cmp::obeys_cmp;
use vstd::std_specs::btree::increasing_seq;
use vstd::std_specs::cmp::OrdSpec;
use vstd::std_specs::iter::IteratorSpec;
use std::sync::Arc;

verus! {

broadcast use vstd::std_specs::btree::group_btree_axioms;

/// An integer that names a resource in a [`ResourceTable`].
pub type ResourceId = u32;

/// A resource: an object the table manages.
pub trait Resource {
    /// A description of the resource.
    fn name(&self) -> String;

    /// Cleans up after the resource was removed from the table with
    /// [`ResourceTable::close`]; by default nothing.
    fn close(self: Arc<Self>) {
    }
}

/// `Arc::clone`: another pointer to the same value.
#[verifier::external_body]
fn arc_clone<T>(a: &Arc<T>) -> (r: Arc<T>)
    ensures
        r == *a,
{
    Arc::clone(a)
}

/// The `u32` values below `n`.
pub open spec fn ids_below(n: nat) -> Set<u32> {
    Set::new(|c: u32| (c as nat) < n)
}

/// There are `n` of them, for `n` up to 2^32.
pub proof fn lemma_ids_below(n: nat)
    requires
        n <= 0x1_0000_0000,
    ensures
        ids_below(n).finite(),
        ids_below(n).len() == n,
    decreases n,
{
    if n == 0 {
        assert(ids_below(0) =~= Set::empty());
    } else {
        let m = (n - 1) as nat;
        lemma_ids_below(m);
        let c = m as u32;
        assert(c as nat == m);
        assert(ids_below(n) =~= ids_below(m).insert(c));
    }
}

/// A table with fewer than 2^32 resources has a free id.
pub proof fn lemma_free_id_exists<T>(m: Map<ResourceId, T>)
    requires
        m.dom().finite(),
        m.dom().len() < 0x1_0000_0000,
    ensures
        exists|c: u32| !m.contains_key(c),
{
    if forall|c: u32| m.contains_key(c) {
        lemma_ids_below(0x1_0000_0000);
        assert(ids_below(0x1_0000_0000).subset_of(m.dom()));
        vstd::set_lib::lemma_len_subset(ids_below(0x1_0000_0000), m.dom());
    }
}

/// A resource added under a fresh id is found under it, and every other id keeps what it had:
/// present ids their resource, absent ids nothing.
pub proof fn lemma_add_then_get<T>(table: Map<ResourceId, Arc<T>>, rid: ResourceId, resource: Arc<T>)
    requires
        !table.contains_key(rid),
    ensures
        table.insert(rid, resource).contains_key(rid),
        table.insert(rid, resource)[rid] == resource,
        forall|other: ResourceId| other != rid ==> (#[trigger] table.insert(rid, resource).contains_key(other) <==> table.contains_key(other)),
        forall|other: ResourceId| other != rid && table.contains_key(other) ==> #[trigger] table.insert(rid, resource)[other] == table[other],
{
}

/// Resources by id.
pub struct ResourceTable<T> {
    index: BTreeMap<ResourceId, Arc<T>>,
}

impl<T> View for ResourceTable<T> {
    type V = Map<ResourceId, Arc<T>>;

    closed spec fn view(&self) -> Map<ResourceId, Arc<T>> {
        self.index@
    }
}

impl<T: Resource> ResourceTable<T> {
    /// An empty table.
    pub fn new() -> (r: Self)
        ensures
            r@ == Map::<ResourceId, Arc<T>>::empty(),
    {
        ResourceTable { index: BTreeMap::new() }
    }

    /// The number of resources.
    pub fn len(&self) -> (r: usize)
        ensures
            r == self@.len(),
    {
        self.index.len()
    }

    /// An id no resource has: a random one, or, should that one be taken, the smallest free one.
    fn free_rid(&self) -> (r: ResourceId)
        requires
            self@.len() < 0x1_0000_0000,
        ensures
            !self@.contains_key(r),
    {
        let rid = crate::random::random_u32();
        if !self.index.contains_key(&rid) {
            return rid;
        }
        let mut c: u64 = 0;
        while c < 0x1_0000_0000u64
            invariant
                c <= 0x1_0000_0000,
                forall|d: u32| (d as u64) < c ==> #[trigger] self@.contains_key(d),
            decreases 0x1_0000_0000 - c,
        {
            let candidate: u32 = c as u32;
            if !self.index.contains_key(&candidate) {
                return candidate;
            }
            c += 1;
        }
        proof {
            lemma_free_id_exists(self@);
            let d = choose|d: u32| !self@.contains_key(d);
            assert((d as u64) < c);
        }
        0
    }

    /// Stores `resource`, shared, under a fresh id, which it returns.
    pub fn add_arc_dyn(&mut self, resource: Arc<T>) -> (r: ResourceId)
        requires
            old(self)@.len() < 0x1_0000_0000,
        ensures
            !old(self)@.contains_key(r),
            final(self)@ == old(self)@.insert(r, resource),
    {
        let rid = self.free_rid();
        let _previous = self.index.insert(rid, resource);
        rid
    }

    /// Stores `resource`, shared, under a fresh id, which it returns.
    pub fn add_arc(&mut self, resource: Arc<T>) -> (r: ResourceId)
        requires
            old(self)@.len() < 0x1_0000_0000,
        ensures
            !old(self)@.contains_key(r),
            final(self)@ == old(self)@.insert(r, resource),
    {
        self.add_arc_dyn(resource)
    }

    /// Stores `resource` under a fresh id, which it returns.
    pub fn add(&mut self, resource: T) -> (r: ResourceId)
        requires
            old(self)@.len() < 0x1_0000_0000,
        ensures
            !old(self)@.contains_key(r),
            final(self)@ == old(self)@.insert(r, Arc::new(resource)),
    {
        self.add_arc(Arc::new(resource))
    }

    /// Whether a resource has the id `rid`.
    pub fn has(&self, rid: ResourceId) -> (r: bool)
        ensures
            r == self@.contains_key(rid),
    {
        self.index.contains_key(&rid)
    }

    /// The resource with the id `rid`; [`Error::BadResourceId`] when there is none.
    pub fn get(&self, rid: ResourceId) -> (r: Result<Arc<T>, Error>)
        ensures
            r is Ok <==> self@.contains_key(rid),
            r matches Ok(a) ==> a == self@[rid],
            r matches Err(e) ==> e == Error::BadResourceId(rid),
    {
        match self.index.get(&rid) {
            Some(a) => Ok(arc_clone(a)),
            None => Err(Error::BadResourceId(rid)),
        }
    }

    /// The resource with the id `rid`; [`Error::BadResourceId`] when there is none.
    pub fn get_any(&self, rid: ResourceId) -> (r: Result<Arc<T>, Error>)
        ensures
            r is Ok <==> self@.contains_key(rid),
            r matches Ok(a) ==> a == self@[rid],
            r matches Err(e) ==> e == Error::BadResourceId(rid),
    {
        self.get(rid)
    }

    /// Replaces the resource with the id `rid`, which must exist.
    pub fn replace(&mut self, rid: ResourceId, resource: T)
        requires
            old(self)@.contains_key(rid),
        ensures
            final(self)@ == old(self)@.insert(rid, Arc::new(resource)),
    {
        let _previous = self.index.insert(rid, Arc::new(resource));
    }

    /// Removes the resource with the id `rid` and returns it (its `close` is not called);
    /// [`Error::BadResourceId`], and no change, when there is none.
    pub fn take(&mut self, rid: ResourceId) -> (r: Result<Arc<T>, Error>)
        ensures
            r is Ok <==> old(self)@.contains_key(rid),
            r matches Ok(a) ==> a == old(self)@[rid],
            r matches Err(e) ==> e == Error::BadResourceId(rid),
            final(self)@ == old(self)@.remove(rid),
    {
        match self.index.remove(&rid) {
            Some(a) => Ok(a),
            None => {
                assert(old(self)@.remove(rid) =~= old(self)@);
                Err(Error::BadResourceId(rid))
            },
        }
    }

    /// Removes the resource with the id `rid` and returns it (its `close` is not called);
    /// [`Error::BadResourceId`], and no change, when there is none.
    pub fn take_any(&mut self, rid: ResourceId) -> (r: Result<Arc<T>, Error>)
        ensures
            r is Ok <==> old(self)@.contains_key(rid),
            r matches Ok(a) ==> a == old(self)@[rid],
            r matches Err(e) ==> e == Error::BadResourceId(rid),
            final(self)@ == old(self)@.remove(rid),
    {
        self.take(rid)
    }

    /// Each resource's id and name, by increasing id.
    pub fn names(&self) -> (r: Vec<(ResourceId, String)>)
        ensures
            r@.len() == self@.len(),
            forall|i: int| 0 <= i < r@.len() ==> self@.contains_key(#[trigger] r@[i].0),
            forall|rid: ResourceId| self@.contains_key(rid) ==> exists|i: int| 0 <= i < r@.len() && #[trigger] r@[i].0 == rid,
            forall|i: int, j: int| 0 <= i < j < r@.len() ==> #[trigger] r@[i].0 < #[trigger] r@[j].0,
    {
        let mut out: Vec<(ResourceId, String)> = Vec::new();
        let entries = self.index.iter();
        let ghost keys = entries.remaining().map_values(|kv: (&ResourceId, &Arc<T>)| *kv.0);
        assert(obeys_cmp::<u32>());
        assert(increasing_seq(keys));
        assert forall|i: int, j: int| 0 <= i < j < keys.len() implies keys[i] < keys[j] by {
            assert(keys[i].cmp_spec(&keys[j]) is Less);
        }
        for (k, v) in it: entries
            invariant
                out@.len() == it.index(),
                it.seq() == vstd::std_specs::btree::spec_btree_map_iter(&self.index).remaining(),
                keys == it.seq().map_values(|kv: (&ResourceId, &Arc<T>)| *kv.0),
                forall|i: int, j: int| 0 <= i < j < keys.len() ==> keys[i] < keys[j],
                forall|i: int| 0 <= i < out@.len() ==> #[trigger] out@[i].0 == *it.seq()[i].0,
        {
            out.push((*k, v.name()));
        }
        proof {
            assert forall|i: int, j: int| 0 <= i < j < out@.len() implies #[trigger] out@[i].0 < #[trigger] out@[j].0 by {
                assert(out@[i].0 == keys[i]);
                assert(out@[j].0 == keys[j]);
            }
            let s = vstd::std_specs::btree::spec_btree_map_iter(&self.index).remaining();
            assert forall|rid: ResourceId| self@.contains_key(rid) implies exists|i: int| 0 <= i < out@.len() && #[trigger] out@[i].0 == rid by {
                assert(s.contains((&rid, &self@[rid])));
                let i = choose|i: int| 0 <= i < s.len() && s[i] == (&rid, &self@[rid]);
                assert(out@[i].0 == rid);
            }
        }
        out
    }

    /// Removes the resource with the id `rid` and calls its `close`; [`Error::BadResourceId`],
    /// and no change, when there is none.
    pub fn close(&mut self, rid: ResourceId) -> (r: Result<(), Error>)
        ensures
            r is Ok <==> old(self)@.contains_key(rid),
            r matches Err(e) ==> e == Error::BadResourceId(rid),
            final(self)@ == old(self)@.remove(rid),
    {
        match self.take(rid) {
            Ok(resource) => {
                resource.close();
                Ok(())
            },
            Err(e) => Err(e),
        }
    }

    /// Removes every resource (their `close` is not called).
    pub fn clear(&mut self)
        ensures
            final(self)@ == Map::<ResourceId, Arc<T>>::empty(),
    {
        self.index.clear();
    }
}

} // verus!
