use crate::dna::blend;
use crate::ledger::{moved_reserved, reserved_of};
use crate::ownership::{assigned, directions_agree, is_owner};
use crate::registry::spec_next_id;
use crate::types::{AccountData, AccountId, Balance, Config, Error, Event, Kitty, KittyIndex};
use vstd::array::spec_array_fill_for_copy_type;
use vstd::prelude::*;

verus! {

/// What an engine holds, as mathematics: the model that the contracts of the
/// engine are stated over.
#[verifier::ext_equal]
pub struct State {
    /// The constants the engine was set up with.
    pub config: Config,
    /// The kitty count: the identifier that the next kitty gets.
    pub count: KittyIndex,
    /// The record of each kitty.
    pub kitties: Map<KittyIndex, Kitty>,
    /// The owner of each kitty.
    pub owners: Map<KittyIndex, AccountId>,
    /// The pairs of an account and a kitty that stands in its owned set.
    pub owned: Set<(AccountId, KittyIndex)>,
    /// The pairs of a parent and a kitty that stands in its children set.
    pub children: Set<(KittyIndex, KittyIndex)>,
    /// The deposit record of each account that has one.
    pub accounts: Map<AccountId, AccountData>,
    /// The events reported so far and not yet taken away, oldest first.
    pub events: Seq<Event>,
    /// The number of the current block.
    pub block_number: u64,
    /// The seed from which random values are drawn.
    pub random_seed: [u8; 32],
    /// The position of the running operation in its block, if it has one.
    pub extrinsic_index: Option<u32>,
}

/// An operation with all that decides its effect. The random bytes that
/// `create` and `breed` draw stand here as arguments.
pub enum Op {
    Create { sender: AccountId, new_free: Balance, new_reserved: Balance, dna: [u8; 16] },
    Breed {
        sender: AccountId,
        matron: KittyIndex,
        sire: KittyIndex,
        new_free: Balance,
        new_reserved: Balance,
        selector: [u8; 16],
    },
    Transfer { sender: AccountId, to: AccountId, kitty_id: KittyIndex, value: Balance },
}

/// The seed that consists of zeros.
pub open spec fn zero_seed() -> [u8; 32] {
    spec_array_fill_for_copy_type::<u8, 32>(0u8)
}

/// A founder: no parents, generation 0.
pub open spec fn founder(dna: [u8; 16]) -> Kitty {
    Kitty { dna, matron_id: None, sire_id: None, generation: 0 }
}

impl State {
    /// The state of a new engine: nothing recorded, block 0, a seed of
    /// zeros and no position.
    pub open spec fn genesis(config: Config) -> State {
        State {
            config,
            count: 0,
            kitties: Map::empty(),
            owners: Map::empty(),
            owned: Set::empty(),
            children: Set::empty(),
            accounts: Map::empty(),
            events: Seq::empty(),
            block_number: 0,
            random_seed: zero_seed(),
            extrinsic_index: None,
        }
    }

    /// Whether `parent` is the matron or the sire of the recorded kitty `child`.
    pub open spec fn is_parent_of(self, parent: KittyIndex, child: KittyIndex) -> bool {
        &&& self.kitties.contains_key(child)
        &&& (self.kitties[child].matron_id == Some(parent) || self.kitties[child].sire_id == Some(
            parent,
        ))
    }

    /// What holds of the record of `id`: it is a founder, or it names two
    /// different parents that were there before it and stands one generation
    /// after its sire.
    pub open spec fn kitty_wf(self, id: KittyIndex) -> bool {
        let kitty = self.kitties[id];
        &&& kitty.generation <= id
        &&& kitty.generation == 0 <==> (kitty.matron_id is None && kitty.sire_id is None)
        &&& kitty.matron_id is None <==> kitty.sire_id is None
        &&& kitty.generation > 0 ==> {
            let matron = kitty.matron_id->0;
            let sire = kitty.sire_id->0;
            &&& matron != sire
            &&& matron < id
            &&& sire < id
            &&& self.kitties.contains_key(matron)
            &&& self.kitties.contains_key(sire)
            &&& kitty.generation == self.kitties[sire].generation + 1
        }
    }

    /// The invariant of the engine.
    pub open spec fn wf(self) -> bool {
        let unit = self.config.kitty_index_unit;
        &&& self.config.wf()
        &&& self.count <= self.config.kitty_index_max_value
        &&& self.count % unit == 0
        &&& forall|id: KittyIndex| #[trigger]
            self.kitties.contains_key(id) <==> (id < self.count && id % unit == 0)
        &&& forall|id: KittyIndex| #[trigger] self.kitties.contains_key(id) ==> self.kitty_wf(id)
        &&& forall|id: KittyIndex| #[trigger]
            self.owners.contains_key(id) <==> self.kitties.contains_key(id)
        &&& directions_agree(self.owners, self.owned)
        &&& forall|parent: KittyIndex, child: KittyIndex| #[trigger]
            self.children.contains((parent, child)) <==> self.is_parent_of(parent, child)
    }

    /// The owned set of `account`.
    pub open spec fn owned_by(self, account: AccountId) -> Set<KittyIndex> {
        Set::new(|id: KittyIndex| self.owned.contains((account, id)))
    }

    /// The children set of `parent`.
    pub open spec fn children_of(self, parent: KittyIndex) -> Set<KittyIndex> {
        Set::new(|child: KittyIndex| self.children.contains((parent, child)))
    }

    /// The record and the owner of the kitty that was made as number `i`,
    /// counted from 0.
    pub open spec fn saved_record(self, i: int) -> (Kitty, AccountId) {
        let id = (i * self.config.kitty_index_unit) as KittyIndex;
        (self.kitties[id], self.owners[id])
    }

    /// The identifier for the next kitty, or why there is none.
    pub open spec fn next_kitty_id(self) -> Result<KittyIndex, Error> {
        spec_next_id(self.count, self.config.kitty_index_max_value)
    }

    /// The state after `kitty` was stored under `id` for `owner`: the record,
    /// its place under both parents if it was bred, the count one step past
    /// `id`, and the ownership in both directions.
    pub open spec fn inserted(self, owner: AccountId, id: KittyIndex, kitty: Kitty) -> State {
        State {
            kitties: self.kitties.insert(id, kitty),
            children: if kitty.generation > 0 {
                self.children.insert((kitty.matron_id->0, id)).insert((kitty.sire_id->0, id))
            } else {
                self.children
            },
            count: (id + self.config.kitty_index_unit) as KittyIndex,
            owners: self.owners.insert(id, owner),
            owned: assigned(self.owners, self.owned, id, owner),
            ..self
        }
    }

    /// The state after the record of `who` was overwritten.
    pub open spec fn deposited(self, who: AccountId, free: Balance, reserved: Balance) -> State {
        State { accounts: self.accounts.insert(who, AccountData { free, reserved }), ..self }
    }

    /// The state after `event` was reported.
    pub open spec fn reported(self, event: Event) -> State {
        State { events: self.events.push(event), ..self }
    }

    /// Whether a kitty can be created with `new_reserved` as the new
    /// reserved deposit, and under which identifier.
    pub open spec fn check_create(self, new_reserved: Balance) -> Result<KittyIndex, Error> {
        if new_reserved < self.config.existential_deposit {
            Err(Error::NotEnoughDeposit)
        } else {
            self.next_kitty_id()
        }
    }

    /// The state after `sender` created a founder with genome `dna`.
    pub open spec fn created(
        self,
        sender: AccountId,
        new_free: Balance,
        new_reserved: Balance,
        dna: [u8; 16],
    ) -> State {
        let id = self.count;
        self.inserted(sender, id, founder(dna)).deposited(sender, new_free, new_reserved).reported(
            Event::Created(sender, id, new_free, new_reserved),
        )
    }

    /// Whether `matron` and `sire` can have a child, and under which
    /// identifier.
    pub open spec fn check_parents(self, matron: KittyIndex, sire: KittyIndex) -> Result<
        KittyIndex,
        Error,
    > {
        if matron == sire {
            Err(Error::RequireDifferentParents)
        } else if !self.kitties.contains_key(matron) {
            Err(Error::InvalidMatronId)
        } else if !self.kitties.contains_key(sire) {
            Err(Error::InvalidSireId)
        } else {
            self.next_kitty_id()
        }
    }

    /// Whether a kitty can be bred from `matron` and `sire` with
    /// `new_reserved` as the new reserved deposit, and under which identifier.
    pub open spec fn check_breed(self, matron: KittyIndex, sire: KittyIndex, new_reserved: Balance)
        -> Result<KittyIndex, Error> {
        if matron == sire {
            Err(Error::RequireDifferentParents)
        } else if new_reserved < self.config.existential_deposit {
            Err(Error::NotEnoughDeposit)
        } else {
            self.check_parents(matron, sire)
        }
    }

    /// The child of `matron` and `sire` under `selector`: its genome is the
    /// blend of theirs, and it stands one generation after the sire.
    pub open spec fn child(self, matron: KittyIndex, sire: KittyIndex, selector: [u8; 16]) -> Kitty {
        Kitty {
            dna: blend(self.kitties[matron].dna, self.kitties[sire].dna, selector),
            matron_id: Some(matron),
            sire_id: Some(sire),
            generation: (self.kitties[sire].generation + 1) as u32,
        }
    }

    /// The state after the child of `matron` and `sire` was stored for
    /// `sender`.
    pub open spec fn with_child(
        self,
        sender: AccountId,
        matron: KittyIndex,
        sire: KittyIndex,
        selector: [u8; 16],
    ) -> State {
        self.inserted(sender, self.count, self.child(matron, sire, selector))
    }

    /// The state after `sender` bred a kitty from `matron` and `sire`.
    pub open spec fn bred(
        self,
        sender: AccountId,
        matron: KittyIndex,
        sire: KittyIndex,
        new_free: Balance,
        new_reserved: Balance,
        selector: [u8; 16],
    ) -> State {
        self.with_child(sender, matron, sire, selector).deposited(
            sender,
            new_free,
            new_reserved,
        ).reported(Event::Created(sender, self.count, new_free, new_reserved))
    }

    /// Whether `sender` can hand `kitty_id` to `to` and move `value` of its
    /// reserved deposit along.
    pub open spec fn check_transfer(
        self,
        sender: AccountId,
        to: AccountId,
        kitty_id: KittyIndex,
        value: Balance,
    ) -> Result<(), Error> {
        if sender == to {
            Err(Error::TransferSelf)
        } else if value < self.config.existential_deposit {
            Err(Error::NotEnoughTransferDeposit)
        } else if !self.accounts.contains_key(sender) {
            Err(Error::InvalidAccount)
        } else if self.accounts[sender].reserved < self.config.existential_deposit {
            Err(Error::NotEnoughReservedDeposit)
        } else if self.accounts[sender].reserved < value {
            Err(Error::NotEnoughForTransfer)
        } else if !self.owners.contains_key(kitty_id) {
            Err(Error::InvalidKittyId)
        } else if self.owners[kitty_id] != sender {
            Err(Error::NotKittiesOwner)
        } else {
            Ok(())
        }
    }

    /// The state after `sender` handed `kitty_id` to `to` with `value`.
    pub open spec fn transferred(
        self,
        sender: AccountId,
        to: AccountId,
        kitty_id: KittyIndex,
        value: Balance,
    ) -> State {
        State {
            owners: self.owners.insert(kitty_id, to),
            owned: self.owned.remove((sender, kitty_id)).insert((to, kitty_id)),
            accounts: moved_reserved(self.accounts, sender, to, value),
            events: self.events.push(Event::Transferred(sender, to, kitty_id, value)),
            ..self
        }
    }

    /// Whether the reserved deposit of `to` stays within the range of
    /// `Balance` when `value` is added to it.
    pub open spec fn can_receive(self, to: AccountId, value: Balance) -> bool {
        reserved_of(self.accounts, to) + value <= Balance::MAX
    }

    /// How `op` ends in this state.
    pub open spec fn outcome(self, op: Op) -> Result<(), Error> {
        match op {
            Op::Create { new_reserved, .. } => unit_result(self.check_create(new_reserved)),
            Op::Breed { matron, sire, new_reserved, .. } => unit_result(
                self.check_breed(matron, sire, new_reserved),
            ),
            Op::Transfer { sender, to, kitty_id, value } => self.check_transfer(
                sender,
                to,
                kitty_id,
                value,
            ),
        }
    }

    /// The state after `op`: a refused operation changes nothing.
    pub open spec fn after(self, op: Op) -> State {
        if self.outcome(op) is Err {
            self
        } else {
            match op {
                Op::Create { sender, new_free, new_reserved, dna } => self.created(
                    sender,
                    new_free,
                    new_reserved,
                    dna,
                ),
                Op::Breed { sender, matron, sire, new_free, new_reserved, selector } => self.bred(
                    sender,
                    matron,
                    sire,
                    new_free,
                    new_reserved,
                    selector,
                ),
                Op::Transfer { sender, to, kitty_id, value } => self.transferred(
                    sender,
                    to,
                    kitty_id,
                    value,
                ),
            }
        }
    }
}

/// Whether `kitty` can be stored next in `s`: it is a founder, or the child
/// of two different recorded kitties, one generation after its sire.
pub open spec fn storable(s: State, kitty: Kitty) -> bool {
    ||| (kitty.generation == 0 && kitty.matron_id is None && kitty.sire_id is None)
    ||| {
        &&& kitty.matron_id is Some
        &&& kitty.sire_id is Some
        &&& kitty.matron_id->0 != kitty.sire_id->0
        &&& s.kitties.contains_key(kitty.matron_id->0)
        &&& s.kitties.contains_key(kitty.sire_id->0)
        &&& kitty.generation == s.kitties[kitty.sire_id->0].generation + 1
    }
}

/// The state after the kitties of `records` were stored one after the
/// other from nothing, each for the owner that stands beside it.
pub open spec fn replayed(config: Config, records: Seq<(Kitty, AccountId)>) -> State
    decreases records.len(),
{
    if records.len() == 0 {
        State::genesis(config)
    } else {
        let before = replayed(config, records.drop_last());
        before.inserted(records.last().1, before.count, records.last().0)
    }
}

/// Whether the kitties of `records` can be stored one after the other from
/// nothing: the configuration is usable, and each kitty can be stored when
/// its turn comes.
pub open spec fn replayable(config: Config, records: Seq<(Kitty, AccountId)>) -> bool
    decreases records.len(),
{
    if records.len() == 0 {
        config.wf()
    } else {
        let before = replayed(config, records.drop_last());
        &&& replayable(config, records.drop_last())
        &&& before.next_kitty_id() is Ok
        &&& storable(before, records.last().0)
    }
}

/// The state after the deposits of `deposits` were written one after the
/// other.
pub open spec fn with_deposits(s: State, deposits: Seq<(AccountId, AccountData)>) -> State
    decreases deposits.len(),
{
    if deposits.len() == 0 {
        s
    } else {
        with_deposits(s, deposits.drop_last()).deposited(
            deposits.last().0,
            deposits.last().1.free,
            deposits.last().1.reserved,
        )
    }
}

/// The result of a check without the identifier it found.
pub open spec fn unit_result(r: Result<KittyIndex, Error>) -> Result<(), Error> {
    match r {
        Ok(_) => Ok(()),
        Err(e) => Err(e),
    }
}

} // verus!
