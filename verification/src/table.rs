use vstd::prelude::*;

verus! {

/// A key of a table: a value that can be compared with another of its type.
pub trait Key: Sized {
    /// Whether the two keys are equal.
    fn same(&self, other: &Self) -> (b: bool)
        ensures
            b == (*self == *other),
    ;
}

impl Key for [u8; 32] {
    fn same(&self, other: &Self) -> (b: bool) {
        let mut i: usize = 0;
        while i < 32
            invariant
                i <= 32,
                forall|j: int| 0 <= j < i ==> self@[j] == other@[j],
            decreases 32 - i,
        {
            if self[i] != other[i] {
                return false;
            }
            i += 1;
        }
        assert(*self =~= *other);
        true
    }
}

impl<A: Key, B: Key> Key for (A, B) {
    fn same(&self, other: &Self) -> (b: bool) {
        self.0.same(&other.0) && self.1.same(&other.1)
    }
}

/// The map that a list of entries stands for: each key with its amount.
pub open spec fn map_of<K>(entries: Seq<(K, u128)>) -> Map<K, u128>
    decreases entries.len(),
{
    if entries.len() == 0 {
        Map::empty()
    } else {
        map_of(entries.drop_last()).insert(entries.last().0, entries.last().1)
    }
}

/// The sum of the amounts of a list of entries.
pub open spec fn sum_of<K>(entries: Seq<(K, u128)>) -> nat
    decreases entries.len(),
{
    if entries.len() == 0 {
        0
    } else {
        sum_of(entries.drop_last()) + entries.last().1 as nat
    }
}

/// No key stands twice in the list.
pub open spec fn unique_keys<K>(entries: Seq<(K, u128)>) -> bool {
    forall|i: int, j: int|
        0 <= i < entries.len() && 0 <= j < entries.len() && i != j ==> entries[i].0 != entries[j].0
}

proof fn lemma_map_of_dom<K>(entries: Seq<(K, u128)>, k: K)
    ensures
        map_of(entries).contains_key(k) <==> exists|i: int|
            0 <= i < entries.len() && (#[trigger] entries[i]).0 == k,
    decreases entries.len(),
{
    if entries.len() > 0 {
        let front = entries.drop_last();
        lemma_map_of_dom(front, k);
        if map_of(entries).contains_key(k) {
            if entries.last().0 == k {
                assert(entries[entries.len() - 1].0 == k);
            } else {
                let i = choose|i: int| 0 <= i < front.len() && (#[trigger] front[i]).0 == k;
                assert(entries[i].0 == k);
            }
        }
        if exists|i: int| 0 <= i < entries.len() && (#[trigger] entries[i]).0 == k {
            let i = choose|i: int| 0 <= i < entries.len() && (#[trigger] entries[i]).0 == k;
            if i < front.len() {
                assert(front[i].0 == k);
            }
        }
    }
}

proof fn lemma_map_of_at<K>(entries: Seq<(K, u128)>, i: int)
    requires
        unique_keys(entries),
        0 <= i < entries.len(),
    ensures
        map_of(entries).contains_key(entries[i].0),
        map_of(entries)[entries[i].0] == entries[i].1,
        entries[i].1 <= sum_of(entries),
    decreases entries.len(),
{
    let front = entries.drop_last();
    if i < entries.len() - 1 {
        assert(unique_keys(front)) by {
            assert forall|a: int, b: int|
                0 <= a < front.len() && 0 <= b < front.len() && a != b implies front[a].0
                != front[b].0 by {
                assert(front[a] == entries[a] && front[b] == entries[b]);
            }
        }
        lemma_map_of_at(front, i);
        assert(front[i] == entries[i]);
        assert(entries[i].0 != entries[entries.len() - 1].0);
    }
}

proof fn lemma_map_of_update<K>(entries: Seq<(K, u128)>, i: int, amount: u128)
    requires
        unique_keys(entries),
        0 <= i < entries.len(),
    ensures
        unique_keys(entries.update(i, (entries[i].0, amount))),
        map_of(entries.update(i, (entries[i].0, amount))) == map_of(entries).insert(
            entries[i].0,
            amount,
        ),
        sum_of(entries.update(i, (entries[i].0, amount))) == sum_of(entries) - entries[i].1
            + amount,
    decreases entries.len(),
{
    let key = entries[i].0;
    let changed = entries.update(i, (key, amount));
    let front = entries.drop_last();
    assert(unique_keys(changed)) by {
        assert forall|a: int, b: int|
            0 <= a < changed.len() && 0 <= b < changed.len() && a != b implies changed[a].0
            != changed[b].0 by {
            assert(changed[a].0 == entries[a].0 && changed[b].0 == entries[b].0);
        }
    }
    if i == entries.len() - 1 {
        assert(changed.drop_last() =~= front);
        assert(map_of(changed) =~= map_of(entries).insert(key, amount));
    } else {
        assert(unique_keys(front)) by {
            assert forall|a: int, b: int|
                0 <= a < front.len() && 0 <= b < front.len() && a != b implies front[a].0
                != front[b].0 by {
                assert(front[a] == entries[a] && front[b] == entries[b]);
            }
        }
        lemma_map_of_update(front, i, amount);
        assert(front[i] == entries[i]);
        assert(changed.drop_last() =~= front.update(i, (key, amount)));
        assert(changed.last() == entries.last());
        assert(entries.last().0 != key) by {
            assert(entries[entries.len() - 1].0 != entries[i].0);
        }
        assert(map_of(changed) =~= map_of(entries).insert(key, amount));
    }
}

/// A table of amounts by key, with the sum of what it holds.
pub struct Table<K> {
    entries: Vec<(K, u128)>,
}

impl<K: Key> Table<K> {
    /// The amount under each key that has one.
    pub closed spec fn view(&self) -> Map<K, u128> {
        map_of(self.entries@)
    }

    /// The sum of all amounts in the table.
    pub closed spec fn total(&self) -> nat {
        sum_of(self.entries@)
    }

    /// The invariant of the table: no key stands in it twice.
    pub closed spec fn wf(&self) -> bool {
        unique_keys(self.entries@)
    }

    /// The amount under `key`; a key without an amount counts as 0.
    pub open spec fn amount(&self, key: K) -> u128 {
        if self@.contains_key(key) {
            self@[key]
        } else {
            0
        }
    }

    /// No amount in the table is more than the sum of all.
    pub proof fn lemma_amount_within_total(&self, key: K)
        requires
            self.wf(),
        ensures
            self.amount(key) <= self.total(),
    {
        lemma_map_of_dom(self.entries@, key);
        if self@.contains_key(key) {
            let i = choose|i: int|
                0 <= i < self.entries@.len() && (#[trigger] self.entries@[i]).0 == key;
            lemma_map_of_at(self.entries@, i);
        }
    }

    /// An empty table.
    pub fn new() -> (table: Self)
        ensures
            table.wf(),
            table@ == Map::<K, u128>::empty(),
            table.total() == 0,
    {
        Table { entries: Vec::new() }
    }

    fn find(&self, key: &K) -> (r: Option<usize>)
        requires
            self.wf(),
        ensures
            match r {
                Some(at) => at < self.entries@.len() && self.entries@[at as int].0 == *key
                    && self@.contains_key(*key) && self@[*key] == self.entries@[at as int].1,
                None => !self@.contains_key(*key),
            },
    {
        let mut at: usize = 0;
        while at < self.entries.len()
            invariant
                self.wf(),
                at <= self.entries@.len(),
                forall|i: int| 0 <= i < at ==> (#[trigger] self.entries@[i]).0 != *key,
            decreases self.entries@.len() - at,
        {
            if self.entries[at].0.same(key) {
                proof {
                    lemma_map_of_at(self.entries@, at as int);
                }
                return Some(at);
            }
            at += 1;
        }
        proof {
            lemma_map_of_dom(self.entries@, *key);
        }
        None
    }

    /// The amount under `key`, if it has one.
    pub fn get(&self, key: &K) -> (r: Option<u128>)
        requires
            self.wf(),
        ensures
            r == (if self@.contains_key(*key) {
                Some(self@[*key])
            } else {
                None
            }),
    {
        match self.find(key) {
            Some(at) => Some(self.entries[at].1),
            None => None,
        }
    }

    /// Puts `amount` under `key`, in place of what stood there.
    pub fn insert(&mut self, key: K, amount: u128)
        requires
            old(self).wf(),
        ensures
            final(self).wf(),
            final(self)@ == old(self)@.insert(key, amount),
            final(self).total() == old(self).total() - old(self).amount(key) + amount,
    {
        match self.find(&key) {
            Some(at) => {
                proof {
                    lemma_map_of_update(self.entries@, at as int, amount);
                }
                self.entries.set(at, (key, amount));
            },
            None => {
                proof {
                    lemma_map_of_dom(self.entries@, key);
                    assert(self.entries@.push((key, amount)).drop_last() =~= self.entries@);
                }
                self.entries.push((key, amount));
            },
        }
    }
}

} // verus!
