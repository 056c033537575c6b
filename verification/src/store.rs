//! Fixed-capacity keyed store of per-entity rate state.

use vstd::prelude::*;
use std::collections::HashMap;
use crate::rate::Info;

verus! {

broadcast use
    vstd::std_specs::hash::group_hash_axioms,
    vstd::set::group_set_axioms,
    vstd::map::group_map_axioms;

/// Fixed capacity of a state store: at most this many entities are tracked.
pub const CAPACITY: usize = 100;

/// A bounded store of rate state, one record per entity id.
///
/// One store exists per direction; ingress and egress state are disjoint.
/// Records are created lazily and never deleted.  Past capacity, a write
/// that would create a new key is rejected and reported to the caller —
/// the explicit overflow policy is "reject new keys past capacity", never
/// a silent drop.
pub struct RateStore {
    entries: HashMap<u64, Info>,
}

impl RateStore {
    /// The stored states, as a map from entity id to rate state.
    pub closed spec fn view(&self) -> Map<u64, Info> {
        self.entries@
    }

    /// The store never holds more than `CAPACITY` records.
    pub closed spec fn wf(&self) -> bool {
        self.entries@.len() <= CAPACITY
    }

    pub fn new() -> (s: Self)
        ensures
            s.wf(),
            s@ == Map::<u64, Info>::empty(),
    {
        RateStore { entries: HashMap::new() }
    }

    /// Number of entities currently tracked.
    pub fn len(&self) -> (n: usize)
        ensures
            n == self@.len(),
    {
        self.entries.len()
    }

    /// Look up the state stored for `entity`.
    pub fn get(&self, entity: u64) -> (r: Option<Info>)
        ensures
            r matches Some(info) ==> self@.contains_key(entity) && self@[entity] == info,
            r is None ==> !self@.contains_key(entity),
    {
        match self.entries.get(&entity) {
            Some(info) => Some(*info),
            None => None,
        }
    }

    /// Store `info` under `entity`.  Returns `false`, and changes nothing,
    /// exactly when `entity` is a new key and the store is at capacity.
    pub fn put(&mut self, entity: u64, info: Info) -> (ok: bool)
        requires
            old(self).wf(),
        ensures
            final(self).wf(),
            ok == (old(self)@.contains_key(entity) || old(self)@.len() < CAPACITY),
            ok ==> final(self)@ == old(self)@.insert(entity, info),
            !ok ==> final(self)@ == old(self)@,
    {
        let present = self.entries.contains_key(&entity);
        if present || self.entries.len() < CAPACITY {
            self.entries.insert(entity, info);
            true
        } else {
            false
        }
    }
}

} // verus!
