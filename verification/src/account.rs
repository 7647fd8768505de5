//! The per-client account: available, held and total funds and a lock.
use crate::amount::Amount;
use vstd::prelude::*;

verus! {

/// The funds of one client.
#[derive(Debug, Clone, Copy)]
pub struct Account {
    /// Client id
    pub client_id: u16,
    /// Funds the client may withdraw or use: total less held.
    pub available_funds: Amount,
    /// Funds frozen by disputes: total less available.
    pub held_funds: Amount,
    /// Available and held funds together.
    pub total_funds: Amount,
    /// Whether the account is frozen. A chargeback freezes it.
    pub locked: bool,
}

/// Why an operation left an account as it was (or, for a chargeback that
/// asks for more than is held, only froze it).
#[derive(Debug, Clone, Copy, PartialEq, Eq)]
pub enum AccountError {
    /// The account is frozen.
    AccountLocked(u16),
    /// The operation asks for more than the account has available or held.
    InsufficientFunds(u16, Amount),
    /// A balance would leave the range that an amount can hold. This is a
    /// defect of the run, not of the transaction: callers stop on it.
    Overflow(u16),
}

impl Account {
    /// Every balance can be held, and total is available plus held.
    pub open spec fn wf(&self) -> bool {
        &&& self.available_funds.wf()
        &&& self.held_funds.wf()
        &&& self.total_funds.wf()
        &&& self.total_funds.units == self.available_funds.units + self.held_funds.units
    }

    /// The account that a first deposit of `amount` opens.
    pub open spec fn spec_new(amount: Amount, client_id: u16) -> Account {
        Account {
            client_id,
            available_funds: amount,
            held_funds: Amount { units: 0 },
            total_funds: amount,
            locked: false,
        }
    }

    /// What `deposit` makes of an account, and what it answers.
    pub open spec fn spec_deposit(self, amount: Amount) -> (Account, Result<(), AccountError>) {
        if self.locked {
            (self, Err(AccountError::AccountLocked(self.client_id)))
        } else {
            match (
                self.available_funds.spec_checked_add(amount),
                self.total_funds.spec_checked_add(amount),
            ) {
                (Some(available), Some(total)) => (
                    Account { available_funds: available, total_funds: total, ..self },
                    Ok(()),
                ),
                _ => (self, Err(AccountError::Overflow(self.client_id))),
            }
        }
    }

    /// What `withdraw` makes of an account, and what it answers.
    pub open spec fn spec_withdraw(self, amount: Amount) -> (Account, Result<(), AccountError>) {
        if self.locked {
            (self, Err(AccountError::AccountLocked(self.client_id)))
        } else if self.available_funds.units < amount.units {
            (self, Err(AccountError::InsufficientFunds(self.client_id, amount)))
        } else {
            match (
                self.available_funds.spec_checked_sub(amount),
                self.total_funds.spec_checked_sub(amount),
            ) {
                (Some(available), Some(total)) => (
                    Account { available_funds: available, total_funds: total, ..self },
                    Ok(()),
                ),
                _ => (self, Err(AccountError::Overflow(self.client_id))),
            }
        }
    }

    /// What `dispute` makes of an account, and what it answers.
    pub open spec fn spec_dispute(self, amount: Amount) -> (Account, Result<(), AccountError>) {
        if self.locked {
            (self, Err(AccountError::AccountLocked(self.client_id)))
        } else if self.available_funds.units < amount.units {
            (self, Err(AccountError::InsufficientFunds(self.client_id, amount)))
        } else {
            match (
                self.available_funds.spec_checked_sub(amount),
                self.held_funds.spec_checked_add(amount),
            ) {
                (Some(available), Some(held)) => (
                    Account { available_funds: available, held_funds: held, ..self },
                    Ok(()),
                ),
                _ => (self, Err(AccountError::Overflow(self.client_id))),
            }
        }
    }

    /// What `resolve` makes of an account, and what it answers.
    pub open spec fn spec_resolve(self, amount: Amount) -> (Account, Result<(), AccountError>) {
        if self.locked {
            (self, Err(AccountError::AccountLocked(self.client_id)))
        } else if self.held_funds.units < amount.units {
            (self, Err(AccountError::InsufficientFunds(self.client_id, amount)))
        } else {
            match (
                self.held_funds.spec_checked_sub(amount),
                self.available_funds.spec_checked_add(amount),
            ) {
                (Some(held), Some(available)) => (
                    Account { available_funds: available, held_funds: held, ..self },
                    Ok(()),
                ),
                _ => (self, Err(AccountError::Overflow(self.client_id))),
            }
        }
    }

    /// What `chargeback` makes of an account, and what it answers.
    pub open spec fn spec_chargeback(self, amount: Amount) -> (Account, Result<(), AccountError>) {
        if self.locked {
            (self, Err(AccountError::AccountLocked(self.client_id)))
        } else if self.held_funds.units < amount.units {
            (
                Account { locked: true, ..self },
                Err(AccountError::InsufficientFunds(self.client_id, amount)),
            )
        } else {
            match (
                self.held_funds.spec_checked_sub(amount),
                self.total_funds.spec_checked_sub(amount),
            ) {
                (Some(held), Some(total)) => (
                    Account { held_funds: held, total_funds: total, locked: true, ..self },
                    Ok(()),
                ),
                _ => (self, Err(AccountError::Overflow(self.client_id))),
            }
        }
    }

    /// Opens an account with `amount` available and nothing held.
    pub fn new(amount: Amount, client_id: u16) -> (r: Account)
        requires
            amount.wf(),
        ensures
            r == Account::spec_new(amount, client_id),
            r.wf(),
    {
        Account {
            client_id,
            available_funds: amount,
            held_funds: Amount::zero(),
            total_funds: amount,
            locked: false,
        }
    }

    /// Adds `amount` to the available and total funds.
    pub fn deposit(&mut self, amount: Amount) -> (r: Result<(), AccountError>)
        requires
            old(self).wf(),
            amount.wf(),
        ensures
            *final(self) == old(self).spec_deposit(amount).0,
            r == old(self).spec_deposit(amount).1,
            final(self).wf(),
            old(self).locked ==> final(self).locked,
    {
        if self.locked {
            return Err(AccountError::AccountLocked(self.client_id));
        }
        match (self.available_funds.checked_add(amount), self.total_funds.checked_add(amount)) {
            (Some(available), Some(total)) => {
                self.available_funds = available;
                self.total_funds = total;
                Ok(())
            },
            _ => Err(AccountError::Overflow(self.client_id)),
        }
    }

    /// Takes `amount` from the available and total funds.
    pub fn withdraw(&mut self, amount: Amount) -> (r: Result<(), AccountError>)
        requires
            old(self).wf(),
            amount.wf(),
        ensures
            *final(self) == old(self).spec_withdraw(amount).0,
            r == old(self).spec_withdraw(amount).1,
            final(self).wf(),
            old(self).locked ==> final(self).locked,
    {
        if self.locked {
            return Err(AccountError::AccountLocked(self.client_id));
        }
        if self.available_funds.less_than(amount) {
            return Err(AccountError::InsufficientFunds(self.client_id, amount));
        }
        match (self.available_funds.checked_sub(amount), self.total_funds.checked_sub(amount)) {
            (Some(available), Some(total)) => {
                self.available_funds = available;
                self.total_funds = total;
                Ok(())
            },
            _ => Err(AccountError::Overflow(self.client_id)),
        }
    }

    /// Moves `amount` from the available to the held funds.
    pub fn dispute(&mut self, amount: Amount) -> (r: Result<(), AccountError>)
        requires
            old(self).wf(),
            amount.wf(),
        ensures
            *final(self) == old(self).spec_dispute(amount).0,
            r == old(self).spec_dispute(amount).1,
            final(self).wf(),
            old(self).locked ==> final(self).locked,
    {
        if self.locked {
            return Err(AccountError::AccountLocked(self.client_id));
        }
        if self.available_funds.less_than(amount) {
            return Err(AccountError::InsufficientFunds(self.client_id, amount));
        }
        match (self.available_funds.checked_sub(amount), self.held_funds.checked_add(amount)) {
            (Some(available), Some(held)) => {
                self.available_funds = available;
                self.held_funds = held;
                Ok(())
            },
            _ => Err(AccountError::Overflow(self.client_id)),
        }
    }

    /// Moves `amount` from the held back to the available funds.
    pub fn resolve(&mut self, amount: Amount) -> (r: Result<(), AccountError>)
        requires
            old(self).wf(),
            amount.wf(),
        ensures
            *final(self) == old(self).spec_resolve(amount).0,
            r == old(self).spec_resolve(amount).1,
            final(self).wf(),
            old(self).locked ==> final(self).locked,
    {
        if self.locked {
            return Err(AccountError::AccountLocked(self.client_id));
        }
        if self.held_funds.less_than(amount) {
            return Err(AccountError::InsufficientFunds(self.client_id, amount));
        }
        match (self.held_funds.checked_sub(amount), self.available_funds.checked_add(amount)) {
            (Some(held), Some(available)) => {
                self.held_funds = held;
                self.available_funds = available;
                Ok(())
            },
            _ => Err(AccountError::Overflow(self.client_id)),
        }
    }

    /// Takes `amount` from the held and total funds and freezes the account.
    /// A chargeback for more than is held freezes the account and fails.
    pub fn chargeback(&mut self, amount: Amount) -> (r: Result<(), AccountError>)
        requires
            old(self).wf(),
            amount.wf(),
        ensures
            *final(self) == old(self).spec_chargeback(amount).0,
            r == old(self).spec_chargeback(amount).1,
            final(self).wf(),
            old(self).locked ==> final(self).locked,
    {
        if self.locked {
            return Err(AccountError::AccountLocked(self.client_id));
        }
        if self.held_funds.less_than(amount) {
            self.locked = true;
            return Err(AccountError::InsufficientFunds(self.client_id, amount));
        }
        match (self.held_funds.checked_sub(amount), self.total_funds.checked_sub(amount)) {
            (Some(held), Some(total)) => {
                self.held_funds = held;
                self.total_funds = total;
                self.locked = true;
                Ok(())
            },
            _ => Err(AccountError::Overflow(self.client_id)),
        }
    }
}

/// A withdrawal of more than is available leaves an open account as it was
/// and is refused for want of funds.
pub proof fn lemma_withdraw_beyond_available(account: Account, amount: Amount)
    requires
        !account.locked,
        account.available_funds.units < amount.units,
    ensures
        account.spec_withdraw(amount) == (
            account,
            Err::<(), AccountError>(AccountError::InsufficientFunds(account.client_id, amount)),
        ),
{
}

/// A dispute that succeeds moves exactly `amount` from available to held and
/// keeps the total. The resolve that follows succeeds exactly when nothing
/// negative was held before, and then gives back the account as it was.
pub proof fn lemma_dispute_then_resolve(account: Account, amount: Amount)
    requires
        account.wf(),
        amount.wf(),
        account.spec_dispute(amount).1 is Ok,
    ensures
        ({
            let disputed = account.spec_dispute(amount).0;
            &&& disputed.available_funds.units == account.available_funds.units - amount.units
            &&& disputed.held_funds.units == account.held_funds.units + amount.units
            &&& disputed.total_funds == account.total_funds
            &&& disputed.locked == account.locked
            &&& disputed.spec_resolve(amount).1 is Ok <==> account.held_funds.units >= 0
            &&& disputed.spec_resolve(amount).1 is Ok ==> disputed.spec_resolve(amount).0
                == account
        }),
{
}

/// A chargeback that succeeds takes exactly `amount` from held and from
/// total, leaves available alone, and freezes the account.
pub proof fn lemma_chargeback_removes_and_locks(account: Account, amount: Amount)
    requires
        account.wf(),
        amount.wf(),
        account.spec_chargeback(amount).1 is Ok,
    ensures
        ({
            let after = account.spec_chargeback(amount).0;
            &&& after.held_funds.units == account.held_funds.units - amount.units
            &&& after.total_funds.units == account.total_funds.units - amount.units
            &&& after.available_funds == account.available_funds
            &&& after.locked
        }),
{
}

/// No operation unfreezes an account, and each keeps total equal to
/// available plus held.
pub proof fn lemma_operations_keep_invariant(account: Account, amount: Amount)
    requires
        account.wf(),
        amount.wf(),
    ensures
        account.spec_deposit(amount).0.wf(),
        account.spec_withdraw(amount).0.wf(),
        account.spec_dispute(amount).0.wf(),
        account.spec_resolve(amount).0.wf(),
        account.spec_chargeback(amount).0.wf(),
        account.locked ==> account.spec_deposit(amount).0.locked && account.spec_withdraw(
            amount,
        ).0.locked && account.spec_dispute(amount).0.locked && account.spec_resolve(
            amount,
        ).0.locked && account.spec_chargeback(amount).0.locked,
{
}

} // verus!
