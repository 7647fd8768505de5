//! The ledger: accounts, transaction history and the buffer of transactions
//! that wait for their turn in the id sequence.
use crate::account::{Account, AccountError};
use crate::amount::Amount;
use crate::history::{history_entries, history_get, history_insert, history_last_key, history_new};
use crate::model::{
    first_greater, lemma_enqueue_keeps_wf, lemma_first_deposit_opens_account,
    lemma_locked_account_refuses, lemma_locked_account_refuses_disputes, lemma_pop_keeps_wf,
    lemma_record_keeps_wf, lemma_with_account_keeps_wf, lift, locks_kept, LedgerState,
};
use crate::transaction::{TransactionState, TransactionType};
use indexmap::IndexMap;
use std::collections::{HashMap, VecDeque};
use vstd::prelude::*;

verus! {

broadcast use vstd::std_specs::hash::group_hash_axioms;

/// A client's id.
pub type Client = u16;

/// A transaction's id.
pub type TransactionId = u32;

/// Accounts by client, the history of deposits and withdrawals, and the
/// transactions that are deferred.
#[derive(Debug)]
pub struct Ledger {
    pub accounts: HashMap<Client, Account>,
    pub history: IndexMap<TransactionId, TransactionState>,
    pub unprocessed: VecDeque<TransactionState>,
}

/// Why a transaction that refers to history or to an account was refused.
#[derive(Debug, Clone, Copy, PartialEq, Eq)]
pub enum LedgerError {
    /// No recorded transaction has this id.
    TransactionNotFound(TransactionId),
    /// The transaction carries no amount.
    TransactionAmountMissing(TransactionId),
    /// The client has no account.
    AccountMissing(Client),
    /// The recorded transaction is not under dispute.
    TransactionIsNotDisputed(TransactionId),
}

/// What `process_transaction` answers when a transaction is not applied.
#[derive(Debug, Clone, Copy, PartialEq, Eq)]
pub enum TransactionError {
    /// The client's account refused the operation.
    Account(AccountError),
    /// The transaction refers to what the ledger does not hold.
    Ledger(LedgerError),
}

impl View for Ledger {
    type V = LedgerState;

    open spec fn view(&self) -> LedgerState {
        LedgerState {
            accounts: self.accounts@,
            history: history_entries(self.history),
            buffer: self.unprocessed@,
        }
    }
}

impl Ledger {
    /// A ledger with no account, no history and nothing deferred.
    pub fn new() -> (r: Ledger)
        ensures
            r@.accounts == Map::<Client, Account>::empty(),
            r@.history == Seq::<(TransactionId, TransactionState)>::empty(),
            r@.buffer == Seq::<TransactionState>::empty(),
            r@.wf(),
    {
        Ledger { accounts: HashMap::new(), history: history_new(), unprocessed: VecDeque::new() }
    }

    /// Records `tx` in history under its id: in place of the record that
    /// has the id already, or else as the last entry.
    fn add_history(&mut self, tx: TransactionState)
        requires
            old(self)@.wf(),
            tx.wf(),
            old(self)@.history.len() == 0 || old(self)@.history_index(tx.tx) is Some || tx.tx
                == old(self)@.last_id() + 1,
        ensures
            final(self)@ == old(self)@.record(tx),
            final(self)@.wf(),
            final(self)@.history.len() > 0,
            final(self)@.last_id() == (if old(self)@.history_index(tx.tx) is Some {
                old(self)@.last_id()
            } else {
                tx.tx as int
            }),
    {
        let ghost before = self@;
        proof {
            match before.history_index(tx.tx) {
                Some(i) => {
                    assert(before.history[i].0 == tx.tx);
                },
                None => {
                    assert forall|i: int| 0 <= i < before.history.len() implies (
                    #[trigger] before.history[i]).0 != tx.tx by {}
                },
            }
        }
        history_insert(&mut self.history, tx.tx, tx);
        proof {
            assert(self@ == before.record(tx));
            lemma_record_keeps_wf(before, tx);
        }
    }

    /// The account of the transaction's client, as it stands.
    fn get_account(&self, tx: &TransactionState) -> (r: Result<Account, LedgerError>)
        ensures
            r == (if self@.accounts.contains_key(tx.client) {
                Ok::<Account, LedgerError>(self@.accounts[tx.client])
            } else {
                Err::<Account, LedgerError>(LedgerError::AccountMissing(tx.client))
            }),
    {
        match self.accounts.get(&tx.client) {
            Some(account) => Ok(*account),
            None => Err(LedgerError::AccountMissing(tx.client)),
        }
    }

    /// Stores `account` as the account of `client`.
    fn put_account(&mut self, client: Client, account: Account)
        requires
            old(self)@.wf(),
            account.wf(),
            account.client_id == client,
        ensures
            final(self)@ == old(self)@.with_account(client, account),
            final(self)@.wf(),
    {
        self.accounts.insert(client, account);
        proof {
            lemma_with_account_keeps_wf(old(self)@, client, account);
        }
    }

    /// The record kept under `id`, if there is one.
    fn recorded(&self, id: TransactionId) -> (r: Option<TransactionState>)
        requires
            self@.history_wf(),
        ensures
            r == (match self@.history_index(id) {
                Some(i) => Some(self@.history[i].1),
                None => None::<TransactionState>,
            }),
    {
        let r = history_get(&self.history, id);
        proof {
            match self@.history_index(id) {
                Some(i) => {
                    assert(self@.history[i].0 == id);
                },
                None => {},
            }
        }
        r
    }

    /// Sets the dispute flag of the record kept under `id`; without such a
    /// record nothing happens.
    fn set_disputed(&mut self, id: TransactionId, disputed: bool)
        requires
            old(self)@.wf(),
        ensures
            final(self)@ == old(self)@.set_disputed(id, disputed),
            final(self)@.wf(),
            final(self)@.last_id() == old(self)@.last_id(),
    {
        match self.recorded(id) {
            Some(found) => {
                let changed = TransactionState {
                    tx_type: found.tx_type,
                    client: found.client,
                    tx: found.tx,
                    amount: found.amount,
                    disputed,
                };
                proof {
                    let i = self@.history_index(id).unwrap();
                    assert(self@.history[i].0 == id);
                    assert(changed == found.with_disputed(disputed));
                }
                self.add_history(changed);
            },
            None => {},
        }
    }

    /// Defers `tx`: it enters the buffer behind every deferred transaction
    /// whose id is not greater, so that the buffer stays sorted and equal
    /// ids keep the order in which they came.
    fn add_unprocessed_transaction(&mut self, tx: TransactionState)
        requires
            old(self)@.wf(),
            tx.wf(),
            tx.is_recorded_kind(),
        ensures
            final(self)@ == old(self)@.enqueue(tx),
            final(self)@.wf(),
    {
        let ghost before = self@;
        let mut i: usize = 0;
        while i < self.unprocessed.len() && self.unprocessed[i].tx <= tx.tx
            invariant
                i <= self.unprocessed.len(),
                self@ == before,
                first_greater(before.buffer, tx.tx, 0) == first_greater(
                    before.buffer,
                    tx.tx,
                    i as int,
                ),
            decreases self.unprocessed.len() - i,
        {
            i += 1;
        }
        proof {
            assert(first_greater(before.buffer, tx.tx, i as int) == i);
            lemma_enqueue_keeps_wf(before, tx);
        }
        self.unprocessed.insert(i, tx);
    }

    /// The amount of the recorded transaction that `tx` refers to. With
    /// `check_dispute` the record must be there and under dispute.
    fn get_historical_transaction_amount(
        &self,
        tx: &TransactionState,
        check_dispute: bool,
    ) -> (r: Result<Amount, LedgerError>)
        requires
            self@.history_wf(),
        ensures
            r == self@.lookup_amount(tx.tx, check_dispute),
            r matches Ok(amount) ==> amount.wf(),
    {
        match self.recorded(tx.tx) {
            Some(found) => {
                if check_dispute && !found.disputed {
                    return Err(LedgerError::TransactionIsNotDisputed(found.tx));
                }
                match found.amount {
                    Some(amount) => Ok(amount),
                    None => Err(LedgerError::TransactionAmountMissing(found.tx)),
                }
            },
            None => {
                if check_dispute {
                    Err(LedgerError::TransactionIsNotDisputed(tx.tx))
                } else {
                    Err(LedgerError::TransactionNotFound(tx.tx))
                }
            },
        }
    }
    /// Applies the rule of the transaction's kind. Among what follows from
    /// the rule: a first deposit opens the client's account and touches no
    /// other, and a frozen account refuses whatever reaches it and keeps
    /// its funds.
    fn check_transaction(&mut self, tx: TransactionState) -> (r: Result<(), TransactionError>)
        requires
            old(self)@.wf(),
            tx.wf(),
            old(self)@.admits(tx),
        ensures
            (final(self)@, r) == old(self)@.spec_dispatch(tx),
            final(self)@.wf(),
            locks_kept(old(self)@, final(self)@),
            tx.is_recorded_kind() ==> final(self)@.history.len() > 0 && final(self)@.last_id() == (
            if old(self)@.history_index(tx.tx) is Some {
                old(self)@.last_id()
            } else {
                tx.tx as int
            }),
            tx.tx_type == TransactionType::Deposit && tx.amount is Some && !old(
                self,
            )@.accounts.contains_key(tx.client) ==> r is Ok && final(self)@.accounts == old(
                self,
            )@.accounts.insert(tx.client, Account::spec_new(tx.amount.unwrap(), tx.client))
                && final(self)@.buffer == old(self)@.buffer,
            old(self)@.reaches_account(tx) && old(self)@.accounts.contains_key(tx.client) && old(
                self,
            )@.accounts[tx.client].locked ==> r == Err::<(), TransactionError>(
                TransactionError::Account(AccountError::AccountLocked(tx.client)),
            ) && final(self)@.accounts == old(self)@.accounts && final(self)@.buffer == old(
                self,
            )@.buffer,
    {
        proof {
            let before = self@;
            if tx.tx_type == TransactionType::Deposit && tx.amount is Some
                && !before.accounts.contains_key(tx.client) {
                lemma_first_deposit_opens_account(before, tx, tx.amount.unwrap());
            }
            if before.reaches_account(tx) && before.accounts.contains_key(tx.client)
                && before.accounts[tx.client].locked {
                if tx.is_recorded_kind() {
                    lemma_locked_account_refuses(before, tx);
                } else {
                    lemma_locked_account_refuses_disputes(before, tx);
                }
            }
        }
        match tx.tx_type {
            TransactionType::Deposit => {
                self.add_history(tx);
                let amount = match tx.amount {
                    Some(amount) => amount,
                    None => {
                        return Err(
                            TransactionError::Ledger(LedgerError::TransactionAmountMissing(tx.tx)),
                        );
                    },
                };
                match self.get_account(&tx) {
                    Ok(found) => {
                        let mut account = found;
                        let r = account.deposit(amount);
                        self.put_account(tx.client, account);
                        lift_result(r)
                    },
                    Err(_) => {
                        let account = Account::new(amount, tx.client);
                        self.put_account(tx.client, account);
                        Ok(())
                    },
                }
            },
            TransactionType::Withdrawal => {
                self.add_history(tx);
                let amount = match tx.amount {
                    Some(amount) => amount,
                    None => {
                        return Err(
                            TransactionError::Ledger(LedgerError::TransactionAmountMissing(tx.tx)),
                        );
                    },
                };
                match self.get_account(&tx) {
                    Ok(found) => {
                        let mut account = found;
                        let r = account.withdraw(amount);
                        self.put_account(tx.client, account);
                        lift_result(r)
                    },
                    Err(_) => {
                        self.add_unprocessed_transaction(tx);
                        Ok(())
                    },
                }
            },
            TransactionType::Dispute => {
                self.set_disputed(tx.tx, true);
                let amount = match self.get_historical_transaction_amount(&tx, false) {
                    Ok(amount) => amount,
                    Err(e) => {
                        return Err(TransactionError::Ledger(e));
                    },
                };
                match self.get_account(&tx) {
                    Ok(found) => {
                        let mut account = found;
                        let r = account.dispute(amount);
                        self.put_account(tx.client, account);
                        lift_result(r)
                    },
                    Err(e) => Err(TransactionError::Ledger(e)),
                }
            },
            TransactionType::Chargeback => {
                let amount = match self.get_historical_transaction_amount(&tx, true) {
                    Ok(amount) => amount,
                    Err(e) => {
                        return Err(TransactionError::Ledger(e));
                    },
                };
                match self.get_account(&tx) {
                    Ok(found) => {
                        let mut account = found;
                        let r = account.chargeback(amount);
                        self.put_account(tx.client, account);
                        lift_result(r)
                    },
                    Err(e) => Err(TransactionError::Ledger(e)),
                }
            },
            TransactionType::Resolve => {
                let amount = match self.get_historical_transaction_amount(&tx, true) {
                    Ok(amount) => amount,
                    Err(e) => {
                        return Err(TransactionError::Ledger(e));
                    },
                };
                match self.get_account(&tx) {
                    Ok(found) => {
                        let mut account = found;
                        let r = account.resolve(amount);
                        self.put_account(tx.client, account);
                        if r.is_ok() {
                            self.set_disputed(tx.tx, false);
                            Ok(())
                        } else {
                            lift_result(r)
                        }
                    },
                    Err(e) => Err(TransactionError::Ledger(e)),
                }
            },
        }
    }

    /// Takes from the buffer, one after the other, each head whose id
    /// follows the id recorded last, and dispatches it.
    fn process_unprocessed_transactions(&mut self) -> (r: Result<(), TransactionError>)
        requires
            old(self)@.wf(),
        ensures
            (final(self)@, r) == old(self)@.spec_drain(),
            final(self)@.wf(),
            locks_kept(old(self)@, final(self)@),
    {
        let ghost start = self@;
        loop
            invariant
                start == old(self)@,
                self@.wf(),
                locks_kept(start, self@),
                self@.spec_drain() == start.spec_drain(),
            decreases 0x1_0000_0000 - self@.last_id(),
        {
            let last: u32 = match history_last_key(&self.history) {
                Some(last) => last,
                None => {
                    return Ok(());
                },
            };
            if self.unprocessed.len() == 0 {
                return Ok(());
            }
            if last == u32::MAX || last + 1 != self.unprocessed[0].tx {
                return Ok(());
            }
            let ghost before = self@;
            let transaction = self.unprocessed.pop_front().unwrap();
            assert(self@ == before.pop());
            proof {
                lemma_pop_keeps_wf(before);
                assert(before.history[before.history.len() - 1].0 == last);
            }
            let r = self.check_transaction(transaction);
            if r.is_err() {
                return r;
            }
        }
    }

    /// Takes one transaction, in the order in which transactions are
    /// received. A deposit or withdrawal whose id does not follow the id
    /// recorded last is deferred. Otherwise the transaction is dispatched
    /// (behind a deferred one of the same id, if the buffer starts with
    /// one), and then every deferred transaction whose turn has come.
    /// The id that follows is the next number: nothing follows the
    /// greatest id, so behind it every deposit and withdrawal is deferred.
    pub fn process_transaction(&mut self, tx: TransactionState) -> (r: Result<
        (),
        TransactionError,
    >)
        requires
            old(self)@.wf(),
            tx.wf(),
        ensures
            (final(self)@, r) == old(self)@.spec_process(tx),
            final(self)@.wf(),
            locks_kept(old(self)@, final(self)@),
    {
        let ghost start = self@;
        if let Some(last) = history_last_key(&self.history) {
            if is_recorded(&tx) {
                if last == u32::MAX || last + 1 != tx.tx {
                    self.add_unprocessed_transaction(tx);
                    return Ok(());
                }
                proof {
                    assert(start.history[start.history.len() - 1].0 == last);
                }
                if self.unprocessed.len() > 0 && self.unprocessed[0].tx == tx.tx {
                    let transaction = self.unprocessed.pop_front().unwrap();
                    assert(self@ == start.pop());
                    proof {
                        lemma_pop_keeps_wf(start);
                    }
                    let r = self.check_transaction(transaction);
                    if r.is_err() {
                        return r;
                    }
                    proof {
                        assert(self@.history[self@.history.len() - 1].0 == tx.tx);
                        assert(self@.history_index(tx.tx) is Some);
                    }
                }
            }
        }
        let r = self.check_transaction(tx);
        if r.is_err() {
            return r;
        }
        self.process_unprocessed_transactions()
    }
}

/// Whether the transaction is a deposit or a withdrawal.
fn is_recorded(tx: &TransactionState) -> (r: bool)
    ensures
        r == tx.is_recorded_kind(),
{
    match tx.tx_type {
        TransactionType::Deposit => true,
        TransactionType::Withdrawal => true,
        _ => false,
    }
}

/// An account's answer as an answer of the ledger.
fn lift_result(r: Result<(), AccountError>) -> (out: Result<(), TransactionError>)
    ensures
        out == lift(r),
{
    match r {
        Ok(()) => Ok(()),
        Err(e) => Err(TransactionError::Account(e)),
    }
}

} // verus!
