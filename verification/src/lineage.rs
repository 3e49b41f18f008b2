use crate::index::MultiIndex;
use crate::types::KittyIndex;
use vstd::prelude::*;

verus! {

broadcast use vstd::std_specs::hash::group_hash_axioms;

/// Which kitty is a child of which: under each parent, matron or sire, the
/// kitties bred from it.
pub struct Lineage {
    children: MultiIndex<KittyIndex>,
}

impl View for Lineage {
    type V = Set<(KittyIndex, KittyIndex)>;

    /// The pairs of a parent and one of its children.
    closed spec fn view(&self) -> Set<(KittyIndex, KittyIndex)> {
        self.children@
    }
}

impl Lineage {
    /// The children that stand under `parent`.
    pub open spec fn children_set(&self, parent: KittyIndex) -> Set<KittyIndex> {
        Set::new(|child: KittyIndex| self@.contains((parent, child)))
    }

    /// The invariant of the index: no children set holds a kitty twice.
    pub closed spec fn wf(&self) -> bool {
        self.children.wf()
    }

    /// A lineage without children.
    pub fn new() -> (lineage: Lineage)
        ensures
            lineage.wf(),
            lineage@ == Set::<(KittyIndex, KittyIndex)>::empty(),
    {
        Lineage { children: MultiIndex::new() }
    }

    /// Records `child` under its matron and under its sire.
    pub fn record_breeding(&mut self, matron: KittyIndex, sire: KittyIndex, child: KittyIndex)
        requires
            old(self).wf(),
        ensures
            final(self).wf(),
            final(self)@ == old(self)@.insert((matron, child)).insert((sire, child)),
    {
        self.children.insert(matron, child);
        self.children.insert(sire, child);
    }

    /// The children of `parent`, each once, in no order that callers may
    /// rely on.
    pub fn children_of(&self, parent: KittyIndex) -> (ids: Vec<KittyIndex>)
        requires
            self.wf(),
        ensures
            ids@.no_duplicates(),
            ids@.to_set() == self.children_set(parent),
    {
        let ids = self.children.values(parent);
        assert(ids@.to_set() =~= self.children_set(parent));
        ids
    }
}

} // verus!
