use crate::index::MultiIndex;
use crate::types::{AccountId, Error, KittyIndex};
use std::collections::HashMap;
use vstd::prelude::*;

verus! {

broadcast use vstd::std_specs::hash::group_hash_axioms;

/// Who owns which kitty, kept in both directions: the owner of each kitty,
/// and the kitties of each owner.
pub struct Ownership {
    owners: HashMap<KittyIndex, AccountId>,
    owned: MultiIndex<AccountId>,
}

/// The two directions agree: a kitty stands under an account if and only if
/// that account is its owner.
pub open spec fn directions_agree(
    owners: Map<KittyIndex, AccountId>,
    owned: Set<(AccountId, KittyIndex)>,
) -> bool {
    forall|account: AccountId, id: KittyIndex|
        #![trigger owned.contains((account, id))]
        owned.contains((account, id)) <==> (owners.contains_key(id) && owners[id] == account)
}

impl Ownership {
    /// The owner of each kitty that has one.
    pub closed spec fn owners(&self) -> Map<KittyIndex, AccountId> {
        self.owners@
    }

    /// The pairs of an account and a kitty that stands under it.
    pub closed spec fn owned(&self) -> Set<(AccountId, KittyIndex)> {
        self.owned@
    }

    /// The kitties that stand under `account`.
    pub open spec fn owned_set(&self, account: AccountId) -> Set<KittyIndex> {
        Set::new(|id: KittyIndex| self.owned().contains((account, id)))
    }

    /// The invariant of the index: the two directions agree, and no owned
    /// set holds a kitty twice.
    pub closed spec fn wf(&self) -> bool {
        &&& self.owned.wf()
        &&& directions_agree(self.owners@, self.owned@)
    }

    /// In a well-formed index the two directions agree.
    pub proof fn lemma_directions_agree(&self)
        requires
            self.wf(),
        ensures
            directions_agree(self.owners(), self.owned()),
    {
    }

    /// An index without kitties.
    pub fn new() -> (ownership: Ownership)
        ensures
            ownership.wf(),
            ownership.owners() == Map::<KittyIndex, AccountId>::empty(),
            ownership.owned() == Set::<(AccountId, KittyIndex)>::empty(),
    {
        Ownership { owners: HashMap::new(), owned: MultiIndex::new() }
    }

    /// The owner of `id`, if it has one.
    pub fn owner_of(&self, id: KittyIndex) -> (r: Option<AccountId>)
        ensures
            r == (if self.owners().contains_key(id) {
                Some(self.owners()[id])
            } else {
                None
            }),
    {
        match self.owners.get(&id) {
            Some(owner) => Some(*owner),
            None => None,
        }
    }

    /// Makes `owner` the owner of `id`, whoever owned it before.
    pub fn assign(&mut self, id: KittyIndex, owner: AccountId)
        requires
            old(self).wf(),
        ensures
            final(self).wf(),
            final(self).owners() == old(self).owners().insert(id, owner),
            final(self).owned() == assigned(old(self).owners(), old(self).owned(), id, owner),
    {
        match self.owners.insert(id, owner) {
            Some(before) => {
                self.owned.remove(before, id);
            },
            None => {},
        }
        self.owned.insert(owner, id);
        assert(final(self).owned() =~= assigned(
            old(self).owners(),
            old(self).owned(),
            id,
            owner,
        ));
    }

    /// Hands `id` from `from` to `to`, if `from` is its owner.
    pub fn transfer(&mut self, id: KittyIndex, from: AccountId, to: AccountId) -> (r: Result<
        (),
        Error,
    >)
        requires
            old(self).wf(),
        ensures
            final(self).wf(),
            r == (if is_owner(old(self).owners(), id, from) {
                Ok::<(), Error>(())
            } else {
                Err::<(), Error>(Error::NotKittiesOwner)
            }),
            r is Ok ==> final(self).owners() == old(self).owners().insert(id, to),
            r is Ok ==> final(self).owned() == old(self).owned().remove((from, id)).insert(
                (to, id),
            ),
            r is Err ==> final(self).owners() == old(self).owners(),
            r is Err ==> final(self).owned() == old(self).owned(),
    {
        match self.owner_of(id) {
            Some(owner) => {
                if owner != from {
                    return Err(Error::NotKittiesOwner);
                }
            },
            None => {
                return Err(Error::NotKittiesOwner);
            },
        }
        self.assign(id, to);
        assert(final(self).owned() =~= old(self).owned().remove((from, id)).insert((to, id)));
        Ok(())
    }

    /// The kitties of `account`, each once, in no order that callers may
    /// rely on.
    pub fn owned_by(&self, account: AccountId) -> (ids: Vec<KittyIndex>)
        requires
            self.wf(),
        ensures
            ids@.no_duplicates(),
            ids@.to_set() == self.owned_set(account),
    {
        let ids = self.owned.values(account);
        assert(ids@.to_set() =~= self.owned_set(account));
        ids
    }
}

/// Whether `account` is the recorded owner of `id`.
pub open spec fn is_owner(owners: Map<KittyIndex, AccountId>, id: KittyIndex, account: AccountId)
    -> bool {
    owners.contains_key(id) && owners[id] == account
}

/// The owned pairs after `id` went to `owner`: it no longer stands under its
/// former owner, if it had one, and stands under `owner`.
pub open spec fn assigned(
    owners: Map<KittyIndex, AccountId>,
    owned: Set<(AccountId, KittyIndex)>,
    id: KittyIndex,
    owner: AccountId,
) -> Set<(AccountId, KittyIndex)> {
    if owners.contains_key(id) {
        owned.remove((owners[id], id)).insert((owner, id))
    } else {
        owned.insert((owner, id))
    }
}

} // verus!
