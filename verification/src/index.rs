use crate::types::KittyIndex;
use std::collections::HashMap;
use std::hash::Hash;
use vstd::prelude::*;
use vstd::std_specs::hash::obeys_key_model;

verus! {

broadcast use vstd::std_specs::hash::group_hash_axioms;

/// A relation between keys and kitties that can list the kitties of one key
/// without a scan of the others. It holds one list for each key and no kitty
/// twice in a list.
pub struct MultiIndex<K> {
    lists: HashMap<K, Vec<KittyIndex>>,
}

impl<K: Eq + Hash + Copy> MultiIndex<K> {
    /// The pairs that the relation holds.
    pub closed spec fn view(&self) -> Set<(K, KittyIndex)> {
        Set::new(
            |p: (K, KittyIndex)| self.lists@.contains_key(p.0) && self.lists@[p.0]@.contains(p.1),
        )
    }

    /// The kitties that stand under `key`.
    pub open spec fn under(&self, key: K) -> Set<KittyIndex> {
        Set::new(|id: KittyIndex| self@.contains((key, id)))
    }

    /// The invariant of the index: its keys are of a type that hashes as
    /// its values compare, and no list holds a kitty twice.
    pub closed spec fn wf(&self) -> bool {
        &&& obeys_key_model::<K>()
        &&& forall|k: K| #[trigger]
            self.lists@.contains_key(k) ==> self.lists@[k]@.no_duplicates()
    }

    /// The empty relation. It is well-formed for every key type that hashes
    /// as its values compare, as the integers do.
    pub fn new() -> (index: Self)
        ensures
            obeys_key_model::<K>() ==> index.wf(),
            index@ == Set::<(K, KittyIndex)>::empty(),
    {
        let index = MultiIndex { lists: HashMap::new() };
        assert(index@ =~= Set::<(K, KittyIndex)>::empty());
        index
    }

    /// Whether `id` stands under `key`.
    pub fn contains(&self, key: K, id: KittyIndex) -> (b: bool)
        requires
            self.wf(),
        ensures
            b == self@.contains((key, id)),
    {
        match self.lists.get(&key) {
            Some(list) => position(list, id).is_some(),
            None => false,
        }
    }

    /// Puts `id` under `key`; nothing changes if it stands there already.
    pub fn insert(&mut self, key: K, id: KittyIndex)
        requires
            old(self).wf(),
        ensures
            final(self).wf(),
            final(self)@ == old(self)@.insert((key, id)),
    {
        let mut list = match self.lists.remove(&key) {
            Some(list) => list,
            None => Vec::new(),
        };
        let ghost before = list@;
        if position(&list, id).is_none() {
            list.push(id);
        }
        assert(list@.no_duplicates());
        assert(forall|x: KittyIndex| list@.contains(x) <==> (before.contains(x) || x == id)) by {
            if list@ != before {
                assert(list@ == before.push(id));
                assert(list@[before.len() as int] == id);
                assert forall|x: KittyIndex| before.contains(x) implies list@.contains(x) by {
                    let i = choose|i: int| 0 <= i < before.len() && before[i] == x;
                    assert(list@[i] == x);
                }
            }
        }
        self.lists.insert(key, list);
        assert(final(self)@ =~= old(self)@.insert((key, id)));
    }

    /// Takes `id` from under `key`; nothing changes if it does not stand there.
    pub fn remove(&mut self, key: K, id: KittyIndex)
        requires
            old(self).wf(),
        ensures
            final(self).wf(),
            final(self)@ == old(self)@.remove((key, id)),
    {
        match self.lists.remove(&key) {
            Some(list) => {
                let mut list = list;
                let ghost before = list@;
                match position(&list, id) {
                    Some(at) => {
                        list.remove(at);
                        assert(list@ == before.remove(at as int));
                        assert(list@.no_duplicates());
                        assert(forall|x: KittyIndex|
                            list@.contains(x) <==> (before.contains(x) && x != id)) by {
                            assert forall|x: KittyIndex|
                                before.contains(x) && x != id implies list@.contains(x) by {
                                let i = choose|i: int| 0 <= i < before.len() && before[i] == x;
                                if i < at {
                                    assert(list@[i] == x);
                                } else {
                                    assert(list@[i - 1] == x);
                                }
                            }
                        }
                    },
                    None => {},
                }
                self.lists.insert(key, list);
                assert(final(self)@ =~= old(self)@.remove((key, id)));
            },
            None => {
                assert(final(self)@ =~= old(self)@.remove((key, id)));
            },
        }
    }

    /// The kitties under `key`, each once, in no order that callers may rely on.
    pub fn values(&self, key: K) -> (ids: Vec<KittyIndex>)
        requires
            self.wf(),
        ensures
            ids@.no_duplicates(),
            ids@.to_set() == self.under(key),
    {
        let ids = match self.lists.get(&key) {
            Some(list) => list.clone(),
            None => Vec::new(),
        };
        assert(ids@.to_set() =~= self.under(key));
        ids
    }
}

/// The place of `id` in `list`, if it occurs there.
fn position(list: &Vec<KittyIndex>, id: KittyIndex) -> (r: Option<usize>)
    ensures
        match r {
            Some(at) => at < list@.len() && list@[at as int] == id,
            None => !list@.contains(id),
        },
{
    let mut at: usize = 0;
    while at < list.len()
        invariant
            at <= list@.len(),
            forall|i: int| 0 <= i < at ==> list@[i] != id,
        decreases list@.len() - at,
    {
        if list[at] == id {
            return Some(at);
        }
        at += 1;
    }
    None
}

} // verus!
