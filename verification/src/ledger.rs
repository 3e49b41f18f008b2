use crate::types::{AccountData, AccountId, Balance};
use std::collections::HashMap;
use vstd::prelude::*;

verus! {

broadcast use vstd::std_specs::hash::group_hash_axioms;

/// The deposit ledger: at most one record per account.
pub struct Ledger {
    accounts: HashMap<AccountId, AccountData>,
}

impl View for Ledger {
    type V = Map<AccountId, AccountData>;

    closed spec fn view(&self) -> Map<AccountId, AccountData> {
        self.accounts@
    }
}

/// The reserved amount that `who` holds in `m`; an account without a record
/// holds nothing.
pub open spec fn reserved_of(m: Map<AccountId, AccountData>, who: AccountId) -> int {
    if m.contains_key(who) {
        m[who].reserved as int
    } else {
        0
    }
}

/// The record `data` after `value` has left its reserved part.
pub open spec fn lessened(data: AccountData, value: Balance) -> AccountData {
    AccountData { free: data.free, reserved: (data.reserved - value) as Balance }
}

/// The record of `sender` after `value` has left its reserved part.
pub open spec fn debited(m: Map<AccountId, AccountData>, sender: AccountId, value: Balance)
    -> AccountData {
    lessened(m[sender], value)
}

/// The record of `receiver` after `value` has reached its reserved part; a
/// receiver without a record starts with nothing free.
pub open spec fn credited(m: Map<AccountId, AccountData>, receiver: AccountId, value: Balance)
    -> AccountData {
    if m.contains_key(receiver) {
        AccountData { free: m[receiver].free, reserved: (m[receiver].reserved + value) as Balance }
    } else {
        AccountData { free: 0, reserved: value }
    }
}

/// The ledger after `value` has reached the reserved part of `receiver`.
pub open spec fn with_credit(m: Map<AccountId, AccountData>, receiver: AccountId, value: Balance)
    -> Map<AccountId, AccountData> {
    m.insert(receiver, credited(m, receiver, value))
}

/// The ledger after `value` has moved from the reserved part of `sender` to
/// that of `receiver`: first the debit, then the credit.
pub open spec fn moved_reserved(
    m: Map<AccountId, AccountData>,
    sender: AccountId,
    receiver: AccountId,
    value: Balance,
) -> Map<AccountId, AccountData> {
    with_credit(m.insert(sender, debited(m, sender, value)), receiver, value)
}

/// Whether `value` can move from `sender` to `receiver`: the sender holds
/// it, and the receiver's reserved part stays within the range of `Balance`.
pub open spec fn can_move_reserved(
    m: Map<AccountId, AccountData>,
    sender: AccountId,
    receiver: AccountId,
    value: Balance,
) -> bool {
    &&& m.contains_key(sender)
    &&& m[sender].reserved >= value
    &&& reserved_of(m.insert(sender, debited(m, sender, value)), receiver) + value <= Balance::MAX
}

impl Ledger {
    /// A ledger without records.
    pub fn new() -> (ledger: Ledger)
        ensures
            ledger@ == Map::<AccountId, AccountData>::empty(),
    {
        Ledger { accounts: HashMap::new() }
    }

    /// The record of `who`, if it has one.
    pub fn get(&self, who: AccountId) -> (r: Option<AccountData>)
        ensures
            r == (if self@.contains_key(who) {
                Some(self@[who])
            } else {
                None
            }),
    {
        match self.accounts.get(&who) {
            Some(data) => Some(*data),
            None => None,
        }
    }

    /// Overwrites the record of `who`, whatever it was.
    pub fn set(&mut self, who: AccountId, free: Balance, reserved: Balance)
        ensures
            final(self)@ == old(self)@.insert(who, (AccountData { free, reserved })),
    {
        self.accounts.insert(who, AccountData { free, reserved });
    }

    /// Adds `value` to the reserved part of `receiver`, making a record with
    /// nothing free for a receiver that has none.
    pub fn credit(&mut self, receiver: AccountId, value: Balance)
        requires
            reserved_of(old(self)@, receiver) + value <= Balance::MAX,
        ensures
            final(self)@ == with_credit(old(self)@, receiver, value),
    {
        let to = match self.accounts.get(&receiver) {
            Some(data) => AccountData { free: data.free, reserved: data.reserved + value },
            None => AccountData { free: 0, reserved: value },
        };
        self.accounts.insert(receiver, to);
    }

    /// Moves `value` from the reserved part of `sender` to that of
    /// `receiver`, making a record for the receiver if it has none.
    pub fn move_reserved(&mut self, sender: AccountId, receiver: AccountId, value: Balance)
        requires
            can_move_reserved(old(self)@, sender, receiver, value),
        ensures
            final(self)@ == moved_reserved(old(self)@, sender, receiver, value),
    {
        let from = match self.accounts.get(&sender) {
            Some(data) => *data,
            None => AccountData { free: 0, reserved: 0 },
        };
        self.accounts.insert(sender, AccountData { free: from.free, reserved: from.reserved - value });
        self.credit(receiver, value);
    }
}

} // verus!
