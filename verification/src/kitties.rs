use crate::dna::{blend_dna, genome, lemma_genome_of_view};
use crate::laws::{
    lemma_inserted_wf, lemma_next_fits, lemma_replayable_config, lemma_replayable_prefix,
    lemma_saved_replays, saved_as,
};
use crate::ledger::{lessened, reserved_of, with_credit, Ledger};
use crate::lineage::Lineage;
use crate::ownership::Ownership;
use crate::randomness::{random_bytes, spec_random_value};
use crate::registry::Registry;
use crate::state::{founder, replayable, replayed, storable, with_deposits, Op, State};
use crate::types::{AccountData, AccountId, Balance, Config, Error, Event, Kitty, KittyIndex};
use vstd::prelude::*;

verus! {

/// The engine: the registry of kitties, the ownership and lineage indices
/// and the deposit ledger, together with the context an operation runs in
/// and the events it has reported.
pub struct Module {
    config: Config,
    registry: Registry,
    ownership: Ownership,
    lineage: Lineage,
    ledger: Ledger,
    events: Vec<Event>,
    block_number: u64,
    random_seed: [u8; 32],
    extrinsic_index: Option<u32>,
}

impl View for Module {
    type V = State;

    closed spec fn view(&self) -> State {
        State {
            config: self.config,
            count: self.registry.total(),
            kitties: self.registry.records(),
            owners: self.ownership.owners(),
            owned: self.ownership.owned(),
            children: self.lineage@,
            accounts: self.ledger@,
            events: self.events@,
            block_number: self.block_number,
            random_seed: self.random_seed,
            extrinsic_index: self.extrinsic_index,
        }
    }
}

impl Module {
    /// The invariant of the engine: that of its model, and that of the
    /// indices it is kept in.
    pub closed spec fn wf(&self) -> bool {
        &&& self.ownership.wf()
        &&& self.lineage.wf()
        &&& self@.wf()
    }

    /// The model of a well-formed engine is well-formed.
    pub proof fn lemma_view_wf(&self)
        requires
            self.wf(),
        ensures
            self@.wf(),
    {
    }

    /// The genome that `sender` draws in the current context.
    pub open spec fn spec_random_dna(&self, sender: AccountId) -> [u8; 16] {
        genome(spec_random_value(self@.random_seed@, sender, self@.extrinsic_index))
    }

    /// An engine with nothing recorded, at block 0, with a seed of zeros and
    /// no position.
    pub fn new(config: Config) -> (module: Module)
        requires
            config.wf(),
        ensures
            module.wf(),
            module@ == State::genesis(config),
    {
        let module = Module {
            config,
            registry: Registry::new(),
            ownership: Ownership::new(),
            lineage: Lineage::new(),
            ledger: Ledger::new(),
            events: Vec::new(),
            block_number: 0,
            random_seed: [0u8;32],
            extrinsic_index: None,
        };
        proof {
            module.ownership.lemma_directions_agree();
            assert(module@ =~= State::genesis(config));
        }
        module
    }

    /// Builds an engine from what was saved of one: the kitties in the order
    /// of their identifiers, each with its owner, and the deposit records.
    /// The kitties are stored one after the other as if they were made anew,
    /// and the deposits written in their order. Where the configuration is
    /// not usable, or a kitty could not have been made when its turn comes,
    /// there is no such engine. The engine stands at block 0 with a seed of
    /// zeros, no position and no events.
    pub fn restore(
        config: Config,
        kitties: &Vec<(Kitty, AccountId)>,
        accounts: &Vec<(AccountId, AccountData)>,
    ) -> (r: Option<Module>)
        ensures
            r is Some <==> replayable(config, kitties@),
            r matches Some(module) ==> module.wf() && module@ == with_deposits(
                replayed(config, kitties@),
                accounts@,
            ),
    {
        if !config.is_valid() {
            proof {
                if replayable(config, kitties@) {
                    lemma_replayable_config(config, kitties@);
                }
            }
            return None;
        }
        let mut module = Module::new(config);
        let mut i: usize = 0;
        while i < kitties.len()
            invariant
                i <= kitties@.len(),
                module.wf(),
                replayable(config, kitties@.take(i as int)),
                module@ == replayed(config, kitties@.take(i as int)),
            decreases kitties@.len() - i,
        {
            let (kitty, owner) = kitties[i];
            proof {
                assert(kitties@.take(i + 1).drop_last() =~= kitties@.take(i as int));
                assert(kitties@.take(i + 1).last() == kitties@[i as int]);
                if replayable(config, kitties@) {
                    lemma_replayable_prefix(config, kitties@, i + 1);
                }
            }
            let kitty_id = match module.next_kitty_id() {
                Ok(kitty_id) => kitty_id,
                Err(_) => {
                    return None;
                },
            };
            if !module.is_storable(&kitty) {
                return None;
            }
            proof {
                lemma_next_fits(module@);
            }
            let _stored = module.insert_kitty(&owner, kitty_id, kitty);
            i += 1;
        }
        assert(kitties@.take(i as int) =~= kitties@);
        let mut j: usize = 0;
        while j < accounts.len()
            invariant
                j <= accounts@.len(),
                module.wf(),
                module@ == with_deposits(replayed(config, kitties@), accounts@.take(j as int)),
            decreases accounts@.len() - j,
        {
            let (who, data) = accounts[j];
            proof {
                assert(accounts@.take(j + 1).drop_last() =~= accounts@.take(j as int));
                assert(accounts@.take(j + 1).last() == accounts@[j as int]);
            }
            module.deposit(&who, data.free, data.reserved);
            j += 1;
        }
        assert(accounts@.take(j as int) =~= accounts@);
        Some(module)
    }

    /// What `restore` takes to build this engine's kitties again: the record
    /// and the owner of each kitty, in the order of the identifiers. That
    /// `restore` accepts them, and what it makes of them, is stated by
    /// `lemma_saved_replays`.
    pub fn saved_kitties(&self) -> (records: Vec<(Kitty, AccountId)>)
        requires
            self.wf(),
        ensures
            saved_as(self@, records@),
            replayable(self@.config, records@),
    {
        let unit = self.config.kitty_index_unit;
        let count = self.registry.count();
        let mut records: Vec<(Kitty, AccountId)> = Vec::new();
        let mut id: KittyIndex = 0;
        assert(0 * unit == 0) by (nonlinear_arith);
        while id < count
            invariant
                self.wf(),
                unit == self@.config.kitty_index_unit,
                count == self@.count,
                id <= count,
                id == records@.len() * unit,
                forall|i: int|
                    0 <= i < records@.len() ==> #[trigger] records@[i] == self@.saved_record(i),
            decreases count - id,
        {
            let ghost n = records@.len() as int;
            let ghost before = records@;
            proof {
                vstd::arithmetic::div_mod::lemma_mod_multiples_basic(n, unit as int);
                crate::laws::lemma_multiples_apart(id as int, count as int, unit as int);
                assert((n + 1) * unit == n * unit + unit) by (nonlinear_arith);
                assert(self@.kitties.contains_key(id));
                assert(self@.owners.contains_key(id));
            }
            let kitty = self.kitties(id).unwrap();
            let owner = self.kitty_owner(id).unwrap();
            records.push((kitty, owner));
            proof {
                assert(self@.saved_record(n) == (kitty, owner));
                assert forall|i: int| 0 <= i < records@.len() implies #[trigger] records@[i]
                    == self@.saved_record(i) by {
                    if i < n {
                        assert(records@[i] == before[i]);
                    }
                }
            }
            id = id + unit;
        }
        proof {
            lemma_saved_replays(self@, records@);
        }
        records
    }

    /// Whether `kitty` can be stored next: it is a founder, or the child of
    /// two different recorded kitties, one generation after its sire.
    pub fn is_storable(&self, kitty: &Kitty) -> (b: bool)
        requires
            self.wf(),
        ensures
            b == storable(self@, *kitty),
    {
        match (kitty.matron_id, kitty.sire_id) {
            (None, None) => kitty.generation == 0,
            (Some(matron), Some(sire)) => {
                if matron == sire {
                    return false;
                }
                if self.kitties(matron).is_none() {
                    return false;
                }
                match self.kitties(sire) {
                    Some(sire_kitty) => {
                        proof {
                            assert(self@.kitty_wf(sire));
                        }
                        kitty.generation > 0 && kitty.generation - 1 == sire_kitty.generation
                    },
                    None => false,
                }
            },
            _ => false,
        }
    }

    /// The constants the engine was set up with.
    pub fn config(&self) -> (config: Config)
        ensures
            config == self@.config,
    {
        self.config
    }

    /// The kitty count.
    pub fn kitties_count(&self) -> (count: KittyIndex)
        ensures
            count == self@.count,
    {
        self.registry.count()
    }

    /// The record of `kitty_id`, if there is one.
    pub fn kitties(&self, kitty_id: KittyIndex) -> (r: Option<Kitty>)
        ensures
            r == (if self@.kitties.contains_key(kitty_id) {
                Some(self@.kitties[kitty_id])
            } else {
                None
            }),
    {
        self.registry.get(kitty_id)
    }

    /// The owner of `kitty_id`, if it has one.
    pub fn kitty_owner(&self, kitty_id: KittyIndex) -> (r: Option<AccountId>)
        ensures
            r == (if self@.owners.contains_key(kitty_id) {
                Some(self@.owners[kitty_id])
            } else {
                None
            }),
    {
        self.ownership.owner_of(kitty_id)
    }

    /// The kitties that `owner` owns, each once, in no order that callers
    /// may rely on.
    pub fn owner_kitties(&self, owner: AccountId) -> (ids: Vec<KittyIndex>)
        requires
            self.wf(),
        ensures
            ids@.no_duplicates(),
            ids@.to_set() == self@.owned_by(owner),
            forall|id: KittyIndex|
                #![trigger ids@.contains(id)]
                ids@.contains(id) <==> (self@.owners.contains_key(id) && self@.owners[id]
                    == owner),
    {
        let ids = self.ownership.owned_by(owner);
        assert(ids@.to_set() =~= self@.owned_by(owner));
        assert forall|id: KittyIndex| #![trigger ids@.contains(id)]
            ids@.contains(id) <==> (self@.owners.contains_key(id) && self@.owners[id]
                == owner) by {
            assert(ids@.contains(id) <==> ids@.to_set().contains(id));
            assert(self@.owned_by(owner).contains(id) <==> self@.owned.contains((owner, id)));
        }
        ids
    }

    /// The children of `parent`, each once, in no order that callers may
    /// rely on.
    pub fn kitties_generation(&self, parent: KittyIndex) -> (ids: Vec<KittyIndex>)
        requires
            self.wf(),
        ensures
            ids@.no_duplicates(),
            ids@.to_set() == self@.children_of(parent),
            forall|child: KittyIndex|
                #![trigger ids@.contains(child)]
                ids@.contains(child) <==> self@.is_parent_of(parent, child),
    {
        let ids = self.lineage.children_of(parent);
        assert(ids@.to_set() =~= self@.children_of(parent));
        assert forall|child: KittyIndex| #![trigger ids@.contains(child)]
            ids@.contains(child) <==> self@.is_parent_of(parent, child) by {
            assert(ids@.contains(child) <==> ids@.to_set().contains(child));
            assert(self@.children_of(parent).contains(child) <==> self@.children.contains(
                (parent, child),
            ));
        }
        ids
    }

    /// The deposit record of `who`, if it has one.
    pub fn account(&self, who: AccountId) -> (r: Option<AccountData>)
        ensures
            r == (if self@.accounts.contains_key(who) {
                Some(self@.accounts[who])
            } else {
                None
            }),
    {
        self.ledger.get(who)
    }

    /// The number of the current block.
    pub fn block_number(&self) -> (n: u64)
        ensures
            n == self@.block_number,
    {
        self.block_number
    }

    /// The position of the running operation in its block, if it has one.
    pub fn extrinsic_index(&self) -> (index: Option<u32>)
        ensures
            index == self@.extrinsic_index,
    {
        self.extrinsic_index
    }

    /// Moves the engine to block `n`.
    pub fn set_block_number(&mut self, n: u64)
        ensures
            final(self)@ == (State { block_number: n, ..old(self)@ }),
            old(self).wf() ==> final(self).wf(),
    {
        self.block_number = n;
        assert(final(self)@ =~= (State { block_number: n, ..old(self)@ }));
    }

    /// Sets the position of the operation that runs next.
    pub fn set_extrinsic_index(&mut self, index: Option<u32>)
        ensures
            final(self)@ == (State { extrinsic_index: index, ..old(self)@ }),
            old(self).wf() ==> final(self).wf(),
    {
        self.extrinsic_index = index;
        assert(final(self)@ =~= (State { extrinsic_index: index, ..old(self)@ }));
    }

    /// Sets the seed from which random values are drawn.
    pub fn set_random_seed(&mut self, seed: [u8; 32])
        ensures
            final(self)@ == (State { random_seed: seed, ..old(self)@ }),
            old(self).wf() ==> final(self).wf(),
    {
        self.random_seed = seed;
        assert(final(self)@ =~= (State { random_seed: seed, ..old(self)@ }));
    }

    /// The events reported so far and not yet taken away, oldest first.
    pub fn events(&self) -> (events: Vec<Event>)
        ensures
            events@ == self@.events,
    {
        self.events.clone()
    }

    /// Forgets the events reported so far.
    pub fn reset_events(&mut self)
        ensures
            final(self)@ == (State { events: Seq::empty(), ..old(self)@ }),
            old(self).wf() ==> final(self).wf(),
    {
        self.events = Vec::new();
        assert(final(self)@ =~= (State { events: Seq::empty(), ..old(self)@ }));
    }

    /// Reports `event`.
    pub fn deposit_event(&mut self, event: Event)
        ensures
            final(self)@ == old(self)@.reported(event),
            old(self).wf() ==> final(self).wf(),
    {
        self.events.push(event);
        assert(final(self)@ =~= old(self)@.reported(event));
    }

    /// The identifier for the next kitty: the count, unless it has reached
    /// its maximum.
    pub fn next_kitty_id(&self) -> (r: Result<KittyIndex, Error>)
        ensures
            r == self@.next_kitty_id(),
    {
        self.registry.next_id(self.config.kitty_index_max_value)
    }

    /// Draws the sixteen random bytes of `sender` from the seed and the
    /// position of the current context.
    pub fn random_value(&self, sender: &AccountId) -> (value: [u8; 16])
        ensures
            value@ == spec_random_value(self@.random_seed@, *sender, self@.extrinsic_index),
            value == self.spec_random_dna(*sender),
    {
        let value = random_bytes(&self.random_seed, *sender, self.extrinsic_index);
        proof {
            lemma_genome_of_view(value);
        }
        value
    }

    /// Stores `kitty` under the next identifier for `owner`: the record, its
    /// place under both parents if it was bred, the count, and the
    /// ownership.
    fn insert_kitty(&mut self, owner: &AccountId, kitty_id: KittyIndex, kitty: Kitty) -> (r:
        Result<(), Error>)
        requires
            old(self).wf(),
            old(self)@.next_kitty_id() == Ok::<KittyIndex, Error>(kitty_id),
            storable(old(self)@, kitty),
        ensures
            r is Ok,
            final(self).wf(),
            final(self)@ == old(self)@.inserted(*owner, kitty_id, kitty),
    {
        proof {
            lemma_next_fits(self@);
            lemma_inserted_wf(self@, *owner, kitty);
        }
        self.registry.insert(kitty_id, kitty, self.config.kitty_index_unit);
        if kitty.generation > 0 {
            match (kitty.matron_id, kitty.sire_id) {
                (Some(matron), Some(sire)) => {
                    self.lineage.record_breeding(matron, sire, kitty_id);
                },
                _ => {},
            }
        }
        self.ownership.assign(kitty_id, *owner);
        assert(final(self)@ =~= old(self)@.inserted(*owner, kitty_id, kitty));
        Ok(())
    }

    /// Breeds the child of `matron_kitty_id` and `sire_kitty_id` under
    /// `selector` and stores it for `sender`. The parents must differ and
    /// exist; who owns them is not asked.
    pub fn do_breed(
        &mut self,
        sender: &AccountId,
        matron_kitty_id: KittyIndex,
        sire_kitty_id: KittyIndex,
        selector: [u8; 16],
    ) -> (r: Result<KittyIndex, Error>)
        requires
            old(self).wf(),
        ensures
            final(self).wf(),
            r == old(self)@.check_parents(matron_kitty_id, sire_kitty_id),
            final(self)@ == (if r is Ok {
                old(self)@.with_child(*sender, matron_kitty_id, sire_kitty_id, selector)
            } else {
                old(self)@
            }),
    {
        if matron_kitty_id == sire_kitty_id {
            return Err(Error::RequireDifferentParents);
        }
        let matron_kitty = match self.kitties(matron_kitty_id) {
            Some(kitty) => kitty,
            None => {
                return Err(Error::InvalidMatronId);
            },
        };
        let sire_kitty = match self.kitties(sire_kitty_id) {
            Some(kitty) => kitty,
            None => {
                return Err(Error::InvalidSireId);
            },
        };
        let kitty_id = self.next_kitty_id()?;
        proof {
            lemma_next_fits(self@);
        }
        let dna = blend_dna(&matron_kitty.dna, &sire_kitty.dna, &selector);
        let child_kitty = Kitty {
            dna,
            matron_id: Some(matron_kitty_id),
            sire_id: Some(sire_kitty_id),
            generation: sire_kitty.generation + 1,
        };
        assert(child_kitty == old(self)@.child(matron_kitty_id, sire_kitty_id, selector));
        self.insert_kitty(sender, kitty_id, child_kitty)?;
        Ok(kitty_id)
    }

    /// Overwrites the deposit record of `who`.
    pub fn deposit(&mut self, who: &AccountId, free: Balance, reserved: Balance)
        ensures
            final(self)@ == old(self)@.deposited(*who, free, reserved),
            old(self).wf() ==> final(self).wf(),
    {
        self.ledger.set(*who, free, reserved);
        assert(final(self)@ =~= old(self)@.deposited(*who, free, reserved));
    }

    /// Moves `value` from the reserved deposit of `sender`, whose record
    /// the caller has read as `sender_account`, to that of `to`: the sender's
    /// record becomes what was read, less the value.
    fn transfer_deposit(
        &mut self,
        sender: &AccountId,
        sender_account: &mut AccountData,
        to: &AccountId,
        value: Balance,
    ) -> (r: Result<(), Error>)
        requires
            old(sender_account).reserved >= value,
            reserved_of(
                old(self)@.accounts.insert(*sender, lessened(*old(sender_account), value)),
                *to,
            ) + value <= Balance::MAX,
        ensures
            r is Ok,
            old(self).wf() ==> final(self).wf(),
            *final(sender_account) == *old(sender_account),
            final(self)@ == (State {
                accounts: with_credit(
                    old(self)@.accounts.insert(*sender, lessened(*old(sender_account), value)),
                    *to,
                    value,
                ),
                ..old(self)@
            }),
    {
        let debited_account = AccountData {
            reserved: sender_account.reserved - value,
            free: sender_account.free,
        };
        self.ledger.set(*sender, debited_account.free, debited_account.reserved);
        self.ledger.credit(*to, value);
        assert(final(self)@ =~= (State {
            accounts: with_credit(
                old(self)@.accounts.insert(*sender, lessened(*old(sender_account), value)),
                *to,
                value,
            ),
            ..old(self)@
        }));
        Ok(())
    }

    /// Creates a founder with genome `dna` for `sender` and overwrites the
    /// sender's deposit. Refused, with nothing changed, if the new reserved
    /// deposit is below the existential deposit or the count has reached its
    /// maximum.
    pub fn create_with_dna(
        &mut self,
        sender: AccountId,
        new_free: Balance,
        new_reserved: Balance,
        dna: [u8; 16],
    ) -> (r: Result<(), Error>)
        requires
            old(self).wf(),
        ensures
            final(self).wf(),
            r == old(self)@.outcome(Op::Create { sender, new_free, new_reserved, dna }),
            final(self)@ == old(self)@.after(Op::Create { sender, new_free, new_reserved, dna }),
    {
        if new_reserved < self.config.existential_deposit {
            return Err(Error::NotEnoughDeposit);
        }
        let kitty_id = self.next_kitty_id()?;
        let kitty = Kitty { dna, matron_id: None, sire_id: None, generation: 0 };
        assert(kitty == founder(dna));
        self.insert_kitty(&sender, kitty_id, kitty)?;
        self.deposit(&sender, new_free, new_reserved);
        self.deposit_event(Event::Created(sender, kitty_id, new_free, new_reserved));
        Ok(())
    }

    /// Creates a founder for `sender` with a genome drawn from the current
    /// context, and overwrites the sender's deposit.
    pub fn create(&mut self, sender: AccountId, new_free: Balance, new_reserved: Balance) -> (r:
        Result<(), Error>)
        requires
            old(self).wf(),
        ensures
            final(self).wf(),
            r == old(self)@.outcome(
                Op::Create { sender, new_free, new_reserved, dna: old(self).spec_random_dna(sender) },
            ),
            final(self)@ == old(self)@.after(
                Op::Create { sender, new_free, new_reserved, dna: old(self).spec_random_dna(sender) },
            ),
    {
        let dna = self.random_value(&sender);
        self.create_with_dna(sender, new_free, new_reserved, dna)
    }

    /// Breeds a kitty from `matron_kitty_id` and `sire_kitty_id` under
    /// `selector` for `sender` and overwrites the sender's deposit. Refused,
    /// with nothing changed, if the parents are the same, the new reserved
    /// deposit is below the existential deposit, a parent does not exist, or
    /// the count has reached its maximum.
    pub fn breed_with_selector(
        &mut self,
        sender: AccountId,
        matron_kitty_id: KittyIndex,
        sire_kitty_id: KittyIndex,
        new_free: Balance,
        new_reserved: Balance,
        selector: [u8; 16],
    ) -> (r: Result<(), Error>)
        requires
            old(self).wf(),
        ensures
            final(self).wf(),
            r == old(self)@.outcome(
                Op::Breed {
                    sender,
                    matron: matron_kitty_id,
                    sire: sire_kitty_id,
                    new_free,
                    new_reserved,
                    selector,
                },
            ),
            final(self)@ == old(self)@.after(
                Op::Breed {
                    sender,
                    matron: matron_kitty_id,
                    sire: sire_kitty_id,
                    new_free,
                    new_reserved,
                    selector,
                },
            ),
    {
        if matron_kitty_id == sire_kitty_id {
            return Err(Error::RequireDifferentParents);
        }
        if new_reserved < self.config.existential_deposit {
            return Err(Error::NotEnoughDeposit);
        }
        let new_kitty_id = self.do_breed(&sender, matron_kitty_id, sire_kitty_id, selector)?;
        self.deposit(&sender, new_free, new_reserved);
        self.deposit_event(Event::Created(sender, new_kitty_id, new_free, new_reserved));
        Ok(())
    }

    /// Breeds a kitty from `matron_kitty_id` and `sire_kitty_id` for
    /// `sender` under a selector drawn from the current context, and
    /// overwrites the sender's deposit.
    pub fn breed(
        &mut self,
        sender: AccountId,
        matron_kitty_id: KittyIndex,
        sire_kitty_id: KittyIndex,
        new_free: Balance,
        new_reserved: Balance,
    ) -> (r: Result<(), Error>)
        requires
            old(self).wf(),
        ensures
            final(self).wf(),
            r == old(self)@.outcome(
                Op::Breed {
                    sender,
                    matron: matron_kitty_id,
                    sire: sire_kitty_id,
                    new_free,
                    new_reserved,
                    selector: old(self).spec_random_dna(sender),
                },
            ),
            final(self)@ == old(self)@.after(
                Op::Breed {
                    sender,
                    matron: matron_kitty_id,
                    sire: sire_kitty_id,
                    new_free,
                    new_reserved,
                    selector: old(self).spec_random_dna(sender),
                },
            ),
    {
        let selector = self.random_value(&sender);
        self.breed_with_selector(
            sender,
            matron_kitty_id,
            sire_kitty_id,
            new_free,
            new_reserved,
            selector,
        )
    }

    /// Whether `sender` can hand `kitty_id` to `to` and move `value` of its
    /// reserved deposit along; the first reason against it, if there is one.
    pub fn check_transfer(
        &self,
        sender: AccountId,
        to: AccountId,
        kitty_id: KittyIndex,
        value: Balance,
    ) -> (r: Result<(), Error>)
        ensures
            r == self@.check_transfer(sender, to, kitty_id, value),
    {
        match self.sender_account_for_transfer(sender, to, kitty_id, value) {
            Ok(_) => Ok(()),
            Err(e) => Err(e),
        }
    }

    /// The deposit record of `sender`, if it can hand `kitty_id` to `to`
    /// with `value`; else the first reason against it.
    fn sender_account_for_transfer(
        &self,
        sender: AccountId,
        to: AccountId,
        kitty_id: KittyIndex,
        value: Balance,
    ) -> (r: Result<AccountData, Error>)
        ensures
            match r {
                Ok(data) => self@.check_transfer(sender, to, kitty_id, value) is Ok
                    && self@.accounts.contains_key(sender) && data == self@.accounts[sender],
                Err(e) => self@.check_transfer(sender, to, kitty_id, value) == Err::<(), Error>(e),
            },
    {
        if sender == to {
            return Err(Error::TransferSelf);
        }
        let existential_deposit = self.config.existential_deposit;
        if value < existential_deposit {
            return Err(Error::NotEnoughTransferDeposit);
        }
        let sender_account = match self.account(sender) {
            Some(data) => data,
            None => {
                return Err(Error::InvalidAccount);
            },
        };
        if sender_account.reserved < existential_deposit {
            return Err(Error::NotEnoughReservedDeposit);
        }
        if sender_account.reserved < value {
            return Err(Error::NotEnoughForTransfer);
        }
        let owner = match self.kitty_owner(kitty_id) {
            Some(owner) => owner,
            None => {
                return Err(Error::InvalidKittyId);
            },
        };
        if sender != owner {
            return Err(Error::NotKittiesOwner);
        }
        Ok(sender_account)
    }

    /// Whether the reserved deposit of `to` stays within the range of
    /// `Balance` when `value` is added to it.
    pub fn can_receive(&self, to: AccountId, value: Balance) -> (b: bool)
        ensures
            b == self@.can_receive(to, value),
    {
        match self.account(to) {
            Some(data) => data.reserved <= Balance::MAX - value,
            None => true,
        }
    }

    /// Hands `kitty_id` from `sender` to `to` and moves `value` from the
    /// reserved deposit of the one to that of the other. Refused, with
    /// nothing changed, for the reasons that `check_transfer` gives, in its
    /// order. Where it is not refused, the receiver must be able to receive
    /// the value.
    pub fn transfer(&mut self, sender: AccountId, to: AccountId, kitty_id: KittyIndex, value: Balance)
        -> (r: Result<(), Error>)
        requires
            old(self).wf(),
            old(self)@.check_transfer(sender, to, kitty_id, value) is Ok ==> old(
                self,
            )@.can_receive(to, value),
        ensures
            final(self).wf(),
            r == old(self)@.outcome(Op::Transfer { sender, to, kitty_id, value }),
            final(self)@ == old(self)@.after(Op::Transfer { sender, to, kitty_id, value }),
    {
        let mut sender_account = self.sender_account_for_transfer(sender, to, kitty_id, value)?;
        proof {
            crate::laws::lemma_after_wf(self@, Op::Transfer { sender, to, kitty_id, value });
        }
        let handed = self.ownership.transfer(kitty_id, sender, to);
        assert(handed is Ok);
        self.transfer_deposit(&sender, &mut sender_account, &to, value)?;
        self.deposit_event(Event::Transferred(sender, to, kitty_id, value));
        assert(final(self)@ =~= old(self)@.transferred(sender, to, kitty_id, value));
        Ok(())
    }
}

} // verus!
