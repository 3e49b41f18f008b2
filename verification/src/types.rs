use vstd::prelude::*;

verus! {

/// Identifies an account.
pub type AccountId = u64;

/// Identifies a kitty; identifiers are handed out in increasing order.
pub type KittyIndex = u32;

/// An amount of deposit.
pub type Balance = u64;

/// A kitty as the registry records it. A founder has no parents and
/// generation 0; a bred kitty names both parents and stands one generation
/// after its sire.
#[derive(Clone, Copy, PartialEq, Eq, Debug)]
pub struct Kitty {
    pub dna: [u8; 16],
    pub matron_id: Option<KittyIndex>,
    pub sire_id: Option<KittyIndex>,
    pub generation: u32,
}

/// The deposit of one account, split into a free and a reserved part.
#[derive(Clone, Copy, PartialEq, Eq, Debug)]
pub struct AccountData {
    pub free: Balance,
    pub reserved: Balance,
}

impl Default for AccountData {
    fn default() -> (r: Self)
        ensures
            r.free == 0,
            r.reserved == 0,
    {
        AccountData { free: 0, reserved: 0 }
    }
}

/// The constants an engine is set up with.
#[derive(Clone, Copy, PartialEq, Eq, Debug)]
pub struct Config {
    /// The step by which the kitty count grows with each new kitty.
    pub kitty_index_unit: KittyIndex,
    /// The count at which no further kitty can be made.
    pub kitty_index_max_value: KittyIndex,
    /// The least reserved deposit that creating, breeding and transferring ask for.
    pub existential_deposit: Balance,
}

impl Config {
    /// A usable configuration: the count moves by a positive step and the
    /// maximum lies on one of those steps, so that the count can reach it
    /// but never pass it.
    pub open spec fn wf(&self) -> bool {
        &&& self.kitty_index_unit >= 1
        &&& self.kitty_index_max_value % self.kitty_index_unit == 0
    }

    /// Tells whether the configuration is usable.
    pub fn is_valid(&self) -> (b: bool)
        ensures
            b == self.wf(),
    {
        self.kitty_index_unit >= 1 && self.kitty_index_max_value % self.kitty_index_unit == 0
    }
}

/// What a runtime supplies to an engine: the three constants it is set up
/// with.
pub trait Trait {
    /// The step by which the kitty count grows.
    spec fn spec_kitty_index_unit() -> KittyIndex;

    /// The count at which no further kitty can be made.
    spec fn spec_kitty_index_max_value() -> KittyIndex;

    /// The least reserved deposit.
    spec fn spec_existential_deposit() -> Balance;

    fn kitty_index_unit() -> (unit: KittyIndex)
        ensures
            unit == Self::spec_kitty_index_unit(),
    ;

    fn kitty_index_max_value() -> (max: KittyIndex)
        ensures
            max == Self::spec_kitty_index_max_value(),
    ;

    fn existential_deposit() -> (deposit: Balance)
        ensures
            deposit == Self::spec_existential_deposit(),
    ;
}

impl Config {
    /// The configuration that the runtime `T` asks for.
    pub open spec fn spec_of<T: Trait>() -> Config {
        Config {
            kitty_index_unit: T::spec_kitty_index_unit(),
            kitty_index_max_value: T::spec_kitty_index_max_value(),
            existential_deposit: T::spec_existential_deposit(),
        }
    }

    /// Reads the configuration that the runtime `T` asks for.
    pub fn of<T: Trait>() -> (config: Config)
        ensures
            config == Self::spec_of::<T>(),
    {
        Config {
            kitty_index_unit: T::kitty_index_unit(),
            kitty_index_max_value: T::kitty_index_max_value(),
            existential_deposit: T::existential_deposit(),
        }
    }
}

/// What an operation reports once it has succeeded.
#[derive(Clone, Copy, PartialEq, Eq, Debug)]
pub enum Event {
    /// `Created(owner, kitty, free, reserved)`: a kitty was created or bred.
    Created(AccountId, KittyIndex, Balance, Balance),
    /// `Transferred(from, to, kitty, value)`: a kitty changed hands.
    Transferred(AccountId, AccountId, KittyIndex, Balance),
}

/// Why an operation was refused. A refused operation changes nothing.
#[derive(Clone, Copy, PartialEq, Eq, Debug)]
pub enum Error {
    /// The identifier space is exhausted: the count has reached its maximum.
    KittiesCountOverflow,
    /// The kitty to transfer does not exist.
    InvalidKittyId,
    /// The matron does not exist.
    InvalidMatronId,
    /// The sire does not exist.
    InvalidSireId,
    /// Matron and sire are the same kitty.
    RequireDifferentParents,
    /// The caller does not own the kitty.
    NotKittiesOwner,
    /// The new reserved deposit is below the existential deposit.
    NotEnoughDeposit,
    /// The value to move with a transfer is below the existential deposit.
    NotEnoughTransferDeposit,
    /// The sender's reserved deposit is below the existential deposit.
    NotEnoughReservedDeposit,
    /// The sender's reserved deposit is below the value to move.
    NotEnoughForTransfer,
    /// The sender has no deposit record.
    InvalidAccount,
    /// Sender and receiver are the same account.
    TransferSelf,
}

} // verus!
