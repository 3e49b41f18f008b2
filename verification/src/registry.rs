use crate::types::{Error, Kitty, KittyIndex};
use std::collections::HashMap;
use vstd::prelude::*;

verus! {

broadcast use vstd::std_specs::hash::group_hash_axioms;

/// The primary store of kitties: the records by identifier, and the count
/// from which the next identifier is taken.
pub struct Registry {
    kitties: HashMap<KittyIndex, Kitty>,
    count: KittyIndex,
}

impl Registry {
    /// The records by identifier.
    pub closed spec fn records(&self) -> Map<KittyIndex, Kitty> {
        self.kitties@
    }

    /// The count: the identifier that the next kitty gets.
    pub closed spec fn total(&self) -> KittyIndex {
        self.count
    }

    /// A registry without kitties.
    pub fn new() -> (registry: Registry)
        ensures
            registry.records() == Map::<KittyIndex, Kitty>::empty(),
            registry.total() == 0,
    {
        Registry { kitties: HashMap::new(), count: 0 }
    }

    /// The count.
    pub fn count(&self) -> (count: KittyIndex)
        ensures
            count == self.total(),
    {
        self.count
    }

    /// The identifier for the next kitty: the count, unless it has reached
    /// `max`.
    pub fn next_id(&self, max: KittyIndex) -> (r: Result<KittyIndex, Error>)
        ensures
            r == spec_next_id(self.total(), max),
    {
        if self.count == max {
            return Err(Error::KittiesCountOverflow);
        }
        Ok(self.count)
    }

    /// Stores `kitty` under `id` and moves the count one step past `id`.
    pub fn insert(&mut self, id: KittyIndex, kitty: Kitty, unit: KittyIndex)
        requires
            id + unit <= KittyIndex::MAX,
        ensures
            final(self).records() == old(self).records().insert(id, kitty),
            final(self).total() == id + unit,
    {
        self.kitties.insert(id, kitty);
        self.count = id + unit;
    }

    /// The record of `id`, if there is one.
    pub fn get(&self, id: KittyIndex) -> (r: Option<Kitty>)
        ensures
            r == (if self.records().contains_key(id) {
                Some(self.records()[id])
            } else {
                None
            }),
    {
        match self.kitties.get(&id) {
            Some(kitty) => Some(*kitty),
            None => None,
        }
    }
}

/// The next identifier at a count: the count itself, unless it has reached
/// the maximum.
pub open spec fn spec_next_id(count: KittyIndex, max: KittyIndex) -> Result<KittyIndex, Error> {
    if count == max {
        Err(Error::KittiesCountOverflow)
    } else {
        Ok(count)
    }
}

} // verus!
