use crate::table::Table;
use vstd::prelude::*;

verus! {

/// Identifies an account of the token.
pub type AccountId = [u8; 32];

/// An amount of the token.
pub type Balance = u128;

/// Reports that `value` went from `from` to `to`.
#[derive(Clone, Copy, PartialEq, Eq, Debug)]
pub struct Transfer {
    pub from: AccountId,
    pub to: AccountId,
    pub value: Balance,
}

/// Reports that `owner` lets `spender` take up to `value`.
#[derive(Clone, Copy, PartialEq, Eq, Debug)]
pub struct Approval {
    pub owner: AccountId,
    pub spender: AccountId,
    pub value: Balance,
}

/// Why the token refuses an operation.
#[derive(Clone, Copy, PartialEq, Eq, Debug)]
pub enum Error {
    /// The balance, or the allowance, does not cover the value.
    InSufficientBalance,
}

/// What a token holds, as mathematics.
#[verifier::ext_equal]
pub struct Token {
    /// The supply the token was made with.
    pub total_supply: Balance,
    /// The balance of each account that has one.
    pub balances: Map<AccountId, Balance>,
    /// What each owner lets each spender take.
    pub allowances: Map<(AccountId, AccountId), Balance>,
}

impl Token {
    /// A new token: the whole supply lies with `caller`.
    pub open spec fn genesis(caller: AccountId, total_supply: Balance) -> Token {
        Token {
            total_supply,
            balances: Map::empty().insert(caller, total_supply),
            allowances: Map::empty(),
        }
    }

    /// The balance of `owner`; an account without one holds 0.
    pub open spec fn balance_of(self, owner: AccountId) -> Balance {
        if self.balances.contains_key(owner) {
            self.balances[owner]
        } else {
            0
        }
    }

    /// What `owner` lets `spender` take; 0 where nothing was approved.
    pub open spec fn allowance(self, owner: AccountId, spender: AccountId) -> Balance {
        if self.allowances.contains_key((owner, spender)) {
            self.allowances[(owner, spender)]
        } else {
            0
        }
    }

    /// The token after `owner` let `spender` take up to `value`.
    pub open spec fn approved(self, owner: AccountId, spender: AccountId, value: Balance) -> Token {
        Token { allowances: self.allowances.insert((owner, spender), value), ..self }
    }

    /// The token after `value` left `from`.
    pub open spec fn debited(self, from: AccountId, value: Balance) -> Token {
        Token {
            balances: self.balances.insert(from, (self.balance_of(from) - value) as Balance),
            ..self
        }
    }

    /// The token after `value` reached `to`.
    pub open spec fn credited(self, to: AccountId, value: Balance) -> Token {
        Token {
            balances: self.balances.insert(to, (self.balance_of(to) + value) as Balance),
            ..self
        }
    }

    /// How moving `value` from `from` to `to` ends: refused where the
    /// balance of `from` does not cover it.
    pub open spec fn move_outcome(self, from: AccountId, to: AccountId, value: Balance) -> Result<
        Transfer,
        Error,
    > {
        if self.balance_of(from) < value {
            Err(Error::InSufficientBalance)
        } else {
            Ok(Transfer { from, to, value })
        }
    }

    /// The token after `value` moved from `from` to `to`, first the debit
    /// and then the credit; unchanged where the move is refused.
    pub open spec fn moved(self, from: AccountId, to: AccountId, value: Balance) -> Token {
        if self.balance_of(from) < value {
            self
        } else {
            self.debited(from, value).credited(to, value)
        }
    }

    /// How `caller` moving `value` from `from` to `to` on an allowance ends:
    /// refused where the allowance does not cover it, or the balance.
    pub open spec fn move_from_outcome(
        self,
        caller: AccountId,
        from: AccountId,
        to: AccountId,
        value: Balance,
    ) -> Result<Transfer, Error> {
        if self.allowance(from, caller) < value {
            Err(Error::InSufficientBalance)
        } else {
            self.move_outcome(from, to, value)
        }
    }

    /// The token after `caller` moved `value` from `from` to `to` on an
    /// allowance. An allowance that covers the value is spent before the
    /// balance is looked at, and stays spent where the balance refuses.
    pub open spec fn moved_from(
        self,
        caller: AccountId,
        from: AccountId,
        to: AccountId,
        value: Balance,
    ) -> Token {
        if self.allowance(from, caller) < value {
            self
        } else {
            self.approved(from, caller, (self.allowance(from, caller) - value) as Balance).moved(
                from,
                to,
                value,
            )
        }
    }
}

/// A token with a fixed supply, the balance of each account, and what each
/// owner lets each spender take.
pub struct Erc20 {
    total_supply: Balance,
    balances: Table<AccountId>,
    allowances: Table<(AccountId, AccountId)>,
}

impl View for Erc20 {
    type V = Token;

    closed spec fn view(&self) -> Token {
        Token {
            total_supply: self.total_supply,
            balances: self.balances@,
            allowances: self.allowances@,
        }
    }
}

impl Erc20 {
    /// The sum of all balances.
    pub closed spec fn circulating(&self) -> nat {
        self.balances.total()
    }

    /// The invariant of the token: the balances add up to the supply.
    pub closed spec fn wf(&self) -> bool {
        &&& self.balances.wf()
        &&& self.allowances.wf()
        &&& self.balances.total() == self.total_supply
    }

    /// The balances add up to the supply, and none is more than the supply.
    pub proof fn lemma_supply_conserved(&self, owner: AccountId)
        requires
            self.wf(),
        ensures
            self.circulating() == self@.total_supply,
            self@.balance_of(owner) <= self@.total_supply,
    {
        self.balances.lemma_amount_within_total(owner);
    }

    /// Makes a token whose whole supply lies with `caller`.
    pub fn new(caller: AccountId, total_supply: Balance) -> (token: Erc20)
        ensures
            token.wf(),
            token@ == Token::genesis(caller, total_supply),
    {
        let mut balances = Table::new();
        balances.insert(caller, total_supply);
        let instance = Erc20 { total_supply, balances, allowances: Table::new() };
        assert(instance@ =~= Token::genesis(caller, total_supply));
        instance
    }

    /// The supply the token was made with.
    pub fn total_supply(&self) -> (supply: Balance)
        ensures
            supply == self@.total_supply,
    {
        self.total_supply
    }

    /// The balance of `owner`.
    pub fn balance_of(&self, owner: AccountId) -> (balance: Balance)
        requires
            self.wf(),
        ensures
            balance == self@.balance_of(owner),
    {
        match self.balances.get(&owner) {
            Some(balance) => balance,
            None => 0,
        }
    }

    /// What `owner` lets `spender` take.
    pub fn allowance(&self, owner: AccountId, spender: AccountId) -> (allowance: Balance)
        requires
            self.wf(),
        ensures
            allowance == self@.allowance(owner, spender),
    {
        match self.allowances.get(&(owner, spender)) {
            Some(allowance) => allowance,
            None => 0,
        }
    }

    /// Moves `value` from `who`, the caller, to `to`.
    pub fn transfer(&mut self, who: AccountId, to: AccountId, value: Balance) -> (r: Result<
        Transfer,
        Error,
    >)
        requires
            old(self).wf(),
        ensures
            final(self).wf(),
            r == old(self)@.move_outcome(who, to, value),
            final(self)@ == old(self)@.moved(who, to, value),
    {
        self.transfer_help(who, to, value)
    }

    /// Lets `spender` take up to `value` from `owner`, the caller, in place
    /// of what was approved before.
    pub fn approve(&mut self, owner: AccountId, spender: AccountId, value: Balance) -> (r: Result<
        Approval,
        Error,
    >)
        requires
            old(self).wf(),
        ensures
            final(self).wf(),
            r == Ok::<Approval, Error>(Approval { owner, spender, value }),
            final(self)@ == old(self)@.approved(owner, spender, value),
    {
        self.allowances.insert((owner, spender), value);
        assert(final(self)@ =~= old(self)@.approved(owner, spender, value));
        Ok(Approval { owner, spender, value })
    }

    /// Moves `value` from `from` to `to` on the allowance that `from` gave
    /// to `caller`.
    pub fn transfer_from(
        &mut self,
        caller: AccountId,
        from: AccountId,
        to: AccountId,
        value: Balance,
    ) -> (r: Result<Transfer, Error>)
        requires
            old(self).wf(),
        ensures
            final(self).wf(),
            r == old(self)@.move_from_outcome(caller, from, to, value),
            final(self)@ == old(self)@.moved_from(caller, from, to, value),
    {
        let allowance = self.allowance(from, caller);
        if allowance < value {
            return Err(Error::InSufficientBalance);
        }
        self.allowances.insert((from, caller), allowance - value);
        assert(self@ =~= old(self)@.approved(from, caller, (allowance - value) as Balance));
        self.transfer_help(from, to, value)
    }

    fn transfer_help(&mut self, from: AccountId, to: AccountId, value: Balance) -> (r: Result<
        Transfer,
        Error,
    >)
        requires
            old(self).wf(),
        ensures
            final(self).wf(),
            r == old(self)@.move_outcome(from, to, value),
            final(self)@ == old(self)@.moved(from, to, value),
    {
        let from_balance = self.balance_of(from);
        if from_balance < value {
            return Err(Error::InSufficientBalance);
        }
        self.balances.insert(from, from_balance - value);
        assert(self@ =~= old(self)@.debited(from, value));
        proof {
            self.balances.lemma_amount_within_total(to);
        }
        let to_balance = match self.balances.get(&to) {
            Some(balance) => balance,
            None => 0,
        };
        self.balances.insert(to, to_balance + value);
        assert(final(self)@ =~= old(self)@.moved(from, to, value));
        Ok(Transfer { from: from, to: to, value: value })
    }
}

} // verus!
