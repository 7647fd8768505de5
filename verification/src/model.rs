//! The ledger as a mathematical value: what each step of processing makes
//! of it, and what holds of every step.
use crate::account::{Account, AccountError};
use crate::amount::Amount;
use crate::ledger::{Client, LedgerError, TransactionError, TransactionId};
use crate::transaction::{TransactionState, TransactionType};
use vstd::prelude::*;

verus! {

/// The ledger as a mathematical value.
pub struct LedgerState {
    pub accounts: Map<Client, Account>,
    /// Ids and records in the order in which the ids were first recorded.
    pub history: Seq<(TransactionId, TransactionState)>,
    /// Deferred transactions, in ascending order of id.
    pub buffer: Seq<TransactionState>,
}

/// The first index at or after `from` whose transaction has an id greater
/// than `id`, or the length of `buffer` when there is none.
pub open spec fn first_greater(buffer: Seq<TransactionState>, id: TransactionId, from: int) -> int
    decreases buffer.len() - from,
{
    if from < 0 || from >= buffer.len() {
        buffer.len() as int
    } else if buffer[from].tx > id {
        from
    } else {
        first_greater(buffer, id, from + 1)
    }
}

/// An account's answer as an answer of the ledger.
pub open spec fn lift(r: Result<(), AccountError>) -> Result<(), TransactionError> {
    match r {
        Ok(()) => Ok(()),
        Err(e) => Err(TransactionError::Account(e)),
    }
}

/// Every account frozen in `before` is still there, and frozen, in `after`.
pub open spec fn locks_kept(before: LedgerState, after: LedgerState) -> bool {
    forall|c: Client|
        #[trigger] before.accounts.contains_key(c) && before.accounts[c].locked
            ==> after.accounts.contains_key(c) && after.accounts[c].locked
}

impl LedgerState {
    /// Every account keeps total equal to available plus held, and is kept
    /// under the id of its client.
    pub open spec fn accounts_wf(self) -> bool {
        forall|c: Client|
            self.accounts.contains_key(c) ==> (#[trigger] self.accounts[c]).wf()
                && self.accounts[c].client_id == c
    }

    /// History holds consecutive ids, each with the record of that id.
    pub open spec fn history_wf(self) -> bool {
        forall|i: int|
            0 <= i < self.history.len() ==> {
                let entry = #[trigger] self.history[i];
                &&& entry.0 == self.history[0].0 + i
                &&& entry.1.tx == entry.0
                &&& entry.1.wf()
            }
    }

    /// The buffer holds deposits and withdrawals, sorted by id.
    pub open spec fn buffer_wf(self) -> bool {
        &&& forall|i: int|
            0 <= i < self.buffer.len() ==> (#[trigger] self.buffer[i]).wf()
                && self.buffer[i].is_recorded_kind()
        &&& forall|i: int, j: int|
            0 <= i <= j < self.buffer.len() ==> self.buffer[i].tx <= self.buffer[j].tx
    }

    /// The three invariants of a ledger together.
    pub open spec fn wf(self) -> bool {
        self.accounts_wf() && self.history_wf() && self.buffer_wf()
    }

    /// The id recorded last, or -1 while nothing is recorded.
    pub open spec fn last_id(self) -> int {
        if self.history.len() == 0 {
            -1
        } else {
            self.history.last().0 as int
        }
    }

    /// Where in history the record of `id` stands.
    pub open spec fn history_index(self, id: TransactionId) -> Option<int> {
        if self.history.len() > 0 && self.history[0].0 <= id < self.history[0].0
            + self.history.len() {
            Some(id - self.history[0].0)
        } else {
            None
        }
    }

    /// History takes `tx`: in place of the record of the same id, or last.
    pub open spec fn record(self, tx: TransactionState) -> LedgerState {
        match self.history_index(tx.tx) {
            Some(i) => LedgerState { history: self.history.update(i, (tx.tx, tx)), ..self },
            None => LedgerState { history: self.history.push((tx.tx, tx)), ..self },
        }
    }

    /// The record of `id`, if there is one, has its dispute flag set.
    pub open spec fn set_disputed(self, id: TransactionId, disputed: bool) -> LedgerState {
        match self.history_index(id) {
            Some(i) => LedgerState {
                history: self.history.update(i, (id, self.history[i].1.with_disputed(disputed))),
                ..self
            },
            None => self,
        }
    }

    /// The buffer takes `tx` behind every transaction whose id is not
    /// greater.
    pub open spec fn enqueue(self, tx: TransactionState) -> LedgerState {
        LedgerState {
            buffer: self.buffer.insert(first_greater(self.buffer, tx.tx, 0), tx),
            ..self
        }
    }

    /// The buffer without its head.
    pub open spec fn pop(self) -> LedgerState {
        LedgerState { buffer: self.buffer.subrange(1, self.buffer.len() as int), ..self }
    }

    /// `account` becomes the account of `client`.
    pub open spec fn with_account(self, client: Client, account: Account) -> LedgerState {
        LedgerState { accounts: self.accounts.insert(client, account), ..self }
    }

    /// The amount of the recorded transaction `id`. With `check_dispute`
    /// the record must be there and under dispute, and the lookup is
    /// refused as not disputed otherwise; without it, an id that history
    /// does not hold is refused as not found.
    pub open spec fn lookup_amount(self, id: TransactionId, check_dispute: bool) -> Result<
        Amount,
        LedgerError,
    > {
        match self.history_index(id) {
            None => if check_dispute {
                Err(LedgerError::TransactionIsNotDisputed(id))
            } else {
                Err(LedgerError::TransactionNotFound(id))
            },
            Some(i) => {
                let found = self.history[i].1;
                if check_dispute && !found.disputed {
                    Err(LedgerError::TransactionIsNotDisputed(found.tx))
                } else {
                    match found.amount {
                        Some(amount) => Ok(amount),
                        None => Err(LedgerError::TransactionAmountMissing(found.tx)),
                    }
                }
            },
        }
    }

    /// Whether dispatching `tx` gets as far as the client's account: a
    /// deposit or withdrawal carries an amount; a dispute finds its record
    /// with an amount; a resolve or chargeback finds it under dispute too.
    pub open spec fn reaches_account(self, tx: TransactionState) -> bool {
        if tx.is_recorded_kind() {
            tx.amount is Some
        } else {
            self.history_index(tx.tx) matches Some(i) && self.history[i].1.amount is Some && (
            tx.tx_type != TransactionType::Dispute ==> self.history[i].1.disputed)
        }
    }

    /// Whether `tx` may be dispatched: it is not recorded in history, or
    /// history is empty, or holds its id already, or its id is the next.
    pub open spec fn admits(self, tx: TransactionState) -> bool {
        ||| !tx.is_recorded_kind()
        ||| self.history.len() == 0
        ||| self.history_index(tx.tx) is Some
        ||| tx.tx == self.last_id() + 1
    }

    /// The rule of each kind of transaction: the ledger after `tx` was
    /// dispatched, and the answer.
    pub open spec fn spec_dispatch(self, tx: TransactionState) -> (
        LedgerState,
        Result<(), TransactionError>,
    ) {
        match tx.tx_type {
            TransactionType::Deposit => {
                let s = self.record(tx);
                match tx.amount {
                    None => (
                        s,
                        Err(TransactionError::Ledger(LedgerError::TransactionAmountMissing(tx.tx))),
                    ),
                    Some(amount) => if s.accounts.contains_key(tx.client) {
                        let (account, r) = s.accounts[tx.client].spec_deposit(amount);
                        (s.with_account(tx.client, account), lift(r))
                    } else {
                        (s.with_account(tx.client, Account::spec_new(amount, tx.client)), Ok(()))
                    },
                }
            },
            TransactionType::Withdrawal => {
                let s = self.record(tx);
                match tx.amount {
                    None => (
                        s,
                        Err(TransactionError::Ledger(LedgerError::TransactionAmountMissing(tx.tx))),
                    ),
                    Some(amount) => if s.accounts.contains_key(tx.client) {
                        let (account, r) = s.accounts[tx.client].spec_withdraw(amount);
                        (s.with_account(tx.client, account), lift(r))
                    } else {
                        (s.enqueue(tx), Ok(()))
                    },
                }
            },
            TransactionType::Dispute => {
                let s = self.set_disputed(tx.tx, true);
                match s.lookup_amount(tx.tx, false) {
                    Err(e) => (s, Err(TransactionError::Ledger(e))),
                    Ok(amount) => if s.accounts.contains_key(tx.client) {
                        let (account, r) = s.accounts[tx.client].spec_dispute(amount);
                        (s.with_account(tx.client, account), lift(r))
                    } else {
                        (s, Err(TransactionError::Ledger(LedgerError::AccountMissing(tx.client))))
                    },
                }
            },
            TransactionType::Chargeback => {
                match self.lookup_amount(tx.tx, true) {
                    Err(e) => (self, Err(TransactionError::Ledger(e))),
                    Ok(amount) => if self.accounts.contains_key(tx.client) {
                        let (account, r) = self.accounts[tx.client].spec_chargeback(amount);
                        (self.with_account(tx.client, account), lift(r))
                    } else {
                        (
                            self,
                            Err(TransactionError::Ledger(LedgerError::AccountMissing(tx.client))),
                        )
                    },
                }
            },
            TransactionType::Resolve => {
                match self.lookup_amount(tx.tx, true) {
                    Err(e) => (self, Err(TransactionError::Ledger(e))),
                    Ok(amount) => if self.accounts.contains_key(tx.client) {
                        let (account, r) = self.accounts[tx.client].spec_resolve(amount);
                        let s = self.with_account(tx.client, account);
                        if r is Ok {
                            (s.set_disputed(tx.tx, false), Ok(()))
                        } else {
                            (s, lift(r))
                        }
                    } else {
                        (
                            self,
                            Err(TransactionError::Ledger(LedgerError::AccountMissing(tx.client))),
                        )
                    },
                }
            },
        }
    }

    /// Whether the head of the buffer carries the id that follows the one
    /// recorded last.
    pub open spec fn head_ready(self) -> bool {
        self.history.len() > 0 && self.buffer.len() > 0 && self.buffer[0].tx == self.last_id() + 1
    }

    /// The buffer is drained: while its head carries the next id, the head
    /// is taken out and dispatched; the first failure ends the draining.
    /// Draining goes on only after a dispatch that recorded a later id; on a
    /// well-formed ledger every dispatch of a head does
    /// (`lemma_drain_step_records_next`), so there the test decides nothing.
    pub open spec fn spec_drain(self) -> (LedgerState, Result<(), TransactionError>)
        decreases 0x1_0000_0000 - self.last_id(),
    {
        if self.head_ready() {
            let (s, r) = self.pop().spec_dispatch(self.buffer[0]);
            if r is Err || s.last_id() <= self.last_id() {
                (s, r)
            } else {
                s.spec_drain()
            }
        } else {
            (self, Ok(()))
        }
    }

    /// `tx` is dispatched, and the buffer drained if that succeeded.
    pub open spec fn dispatch_and_drain(self, tx: TransactionState) -> (
        LedgerState,
        Result<(), TransactionError>,
    ) {
        let (s, r) = self.spec_dispatch(tx);
        if r is Err {
            (s, r)
        } else {
            s.spec_drain()
        }
    }

    /// What `process_transaction` makes of the ledger, and what it answers.
    pub open spec fn spec_process(self, tx: TransactionState) -> (
        LedgerState,
        Result<(), TransactionError>,
    ) {
        if self.history.len() > 0 && tx.is_recorded_kind() {
            if tx.tx != self.last_id() + 1 {
                (self.enqueue(tx), Ok(()))
            } else if self.head_ready() {
                let (s, r) = self.pop().spec_dispatch(self.buffer[0]);
                if r is Err {
                    (s, r)
                } else {
                    s.dispatch_and_drain(tx)
                }
            } else {
                self.dispatch_and_drain(tx)
            }
        } else {
            self.dispatch_and_drain(tx)
        }
    }
}

/// Taking the head out of the buffer leaves a well-formed ledger
/// well formed.
pub proof fn lemma_pop_keeps_wf(s: LedgerState)
    requires
        s.wf(),
        s.buffer.len() > 0,
    ensures
        s.pop().wf(),
        s.buffer[0].wf(),
        s.buffer[0].is_recorded_kind(),
{
    let rest = s.pop().buffer;
    assert forall|i: int| 0 <= i < rest.len() implies (#[trigger] rest[i]).wf()
        && rest[i].is_recorded_kind() by {
        assert(rest[i] == s.buffer[i + 1]);
    }
    assert forall|i: int, j: int| 0 <= i <= j < rest.len() implies rest[i].tx <= rest[j].tx by {
        assert(rest[i] == s.buffer[i + 1]);
        assert(rest[j] == s.buffer[j + 1]);
    }
}

/// A deposit for a client without an account succeeds and opens the
/// account with the amount available, nothing held, and the amount as total.
/// Every other account stays as it is, the buffer is untouched, and history
/// takes the deposit.
pub proof fn lemma_first_deposit_opens_account(s: LedgerState, tx: TransactionState, amount: Amount)
    requires
        tx.tx_type == TransactionType::Deposit,
        tx.amount == Some(amount),
        !s.accounts.contains_key(tx.client),
    ensures
        s.spec_dispatch(tx).1 is Ok,
        s.spec_dispatch(tx).0.accounts == s.accounts.insert(
            tx.client,
            Account {
                client_id: tx.client,
                available_funds: amount,
                held_funds: Amount { units: 0 },
                total_funds: amount,
                locked: false,
            },
        ),
        s.spec_dispatch(tx).0.buffer == s.buffer,
        s.spec_dispatch(tx).0.history == s.record(tx).history,
{
}

/// After a transaction that the ledger admits was recorded, history holds
/// it under its id, as it was given.
pub proof fn lemma_record_holds(s: LedgerState, tx: TransactionState)
    requires
        s.wf(),
        s.history.len() == 0 || s.history_index(tx.tx) is Some || tx.tx == s.last_id() + 1,
    ensures
        s.record(tx).history_index(tx.tx) matches Some(i) && s.record(tx).history[i] == (
            tx.tx,
            tx,
        ),
{
    if s.history.len() > 0 {
        let last = s.history.len() - 1;
        assert(s.history[last].0 == s.history[0].0 + last);
        assert(s.history[0].0 == s.history[0].0 + 0);
    }
}

/// A dispute that names an id which history does not hold is refused as not
/// found; a resolve or chargeback that does is refused as not disputed.
/// Either way the whole ledger stays as it was.
pub proof fn lemma_unknown_reference_changes_nothing(s: LedgerState, tx: TransactionState)
    requires
        !tx.is_recorded_kind(),
        s.history_index(tx.tx) is None,
    ensures
        s.spec_process(tx) == (
            s,
            Err::<(), TransactionError>(
                TransactionError::Ledger(
                    if tx.tx_type == TransactionType::Dispute {
                        LedgerError::TransactionNotFound(tx.tx)
                    } else {
                        LedgerError::TransactionIsNotDisputed(tx.tx)
                    },
                ),
            ),
        ),
{
}

/// A resolve or chargeback that names no recorded transaction under dispute
/// (the id is unknown, or its record is not disputed) is refused as not
/// disputed and leaves the whole ledger as it was: no balance moves and no
/// account is frozen.
pub proof fn lemma_undisputed_reference_changes_nothing(s: LedgerState, tx: TransactionState)
    requires
        s.history_wf(),
        tx.tx_type == TransactionType::Chargeback || tx.tx_type == TransactionType::Resolve,
        s.history_index(tx.tx) matches Some(i) ==> !s.history[i].1.disputed,
    ensures
        s.spec_process(tx) == (
            s,
            Err::<(), TransactionError>(
                TransactionError::Ledger(LedgerError::TransactionIsNotDisputed(tx.tx)),
            ),
        ),
{
    if let Some(i) = s.history_index(tx.tx) {
        assert(s.history[i].1.tx == tx.tx);
    }
}

/// On a well-formed ledger every step of draining records the id that
/// follows the one recorded last.
pub proof fn lemma_drain_step_records_next(s: LedgerState)
    requires
        s.wf(),
        s.head_ready(),
    ensures
        s.pop().spec_dispatch(s.buffer[0]).0.last_id() == s.last_id() + 1,
{
    let tx = s.buffer[0];
    let last = s.history.len() - 1;
    assert(s.history[last].0 == s.history[0].0 + last);
    assert(s.pop().history_index(tx.tx) is None);
    assert(tx.is_recorded_kind());
    let recorded = s.pop().record(tx);
    assert(recorded.history.last().0 == tx.tx);
}

/// A deposit or withdrawal whose id does not follow the id recorded last is
/// deferred: it enters the buffer, nothing else changes, and no error is
/// reported.
pub proof fn lemma_out_of_sequence_is_deferred(s: LedgerState, tx: TransactionState)
    requires
        s.history.len() > 0,
        tx.is_recorded_kind(),
        tx.tx != s.last_id() + 1,
    ensures
        s.spec_process(tx) == (s.enqueue(tx), Ok::<(), TransactionError>(())),
        s.spec_process(tx).0.accounts == s.accounts,
        s.spec_process(tx).0.history == s.history,
{
}

/// Where `first_greater` points: everything from `from` up to it has an id
/// not greater than `id`, and what stands there, if anything, a greater one.
pub proof fn lemma_first_greater(buffer: Seq<TransactionState>, id: TransactionId, from: int)
    requires
        0 <= from <= buffer.len(),
    ensures
        from <= first_greater(buffer, id, from) <= buffer.len(),
        forall|j: int|
            from <= j < first_greater(buffer, id, from) ==> (#[trigger] buffer[j]).tx <= id,
        first_greater(buffer, id, from) < buffer.len() ==> buffer[first_greater(
            buffer,
            id,
            from,
        )].tx > id,
    decreases buffer.len() - from,
{
    if from < buffer.len() && buffer[from].tx <= id {
        lemma_first_greater(buffer, id, from + 1);
    }
}

/// Deferring a deposit or withdrawal keeps a well-formed ledger well formed:
/// the buffer stays sorted.
pub proof fn lemma_enqueue_keeps_wf(s: LedgerState, tx: TransactionState)
    requires
        s.wf(),
        tx.wf(),
        tx.is_recorded_kind(),
    ensures
        s.enqueue(tx).wf(),
{
    let p = first_greater(s.buffer, tx.tx, 0);
    lemma_first_greater(s.buffer, tx.tx, 0);
    let after = s.enqueue(tx).buffer;
    assert forall|j: int| p <= j < s.buffer.len() implies (#[trigger] s.buffer[j]).tx > tx.tx by {
        assert(s.buffer[p].tx <= s.buffer[j].tx);
    }
    assert forall|a: int, b: int| 0 <= a <= b < after.len() implies after[a].tx
        <= after[b].tx by {
        if a < p {
            assert(after[a] == s.buffer[a]);
        } else if a > p {
            assert(after[a] == s.buffer[a - 1]);
        }
        if b < p {
            assert(after[b] == s.buffer[b]);
        } else if b > p {
            assert(after[b] == s.buffer[b - 1]);
        }
    }
    assert forall|a: int| 0 <= a < after.len() implies (#[trigger] after[a]).wf()
        && after[a].is_recorded_kind() by {
        if a < p {
            assert(after[a] == s.buffer[a]);
        } else if a > p {
            assert(after[a] == s.buffer[a - 1]);
        }
    }
}

/// Recording a transaction that the ledger admits keeps it well formed, and
/// moves the id recorded last only when the id is new.
pub proof fn lemma_record_keeps_wf(s: LedgerState, tx: TransactionState)
    requires
        s.wf(),
        tx.wf(),
        s.history.len() == 0 || s.history_index(tx.tx) is Some || tx.tx == s.last_id() + 1,
    ensures
        s.record(tx).wf(),
        s.record(tx).history.len() > 0,
        s.record(tx).last_id() == (if s.history_index(tx.tx) is Some {
            s.last_id()
        } else {
            tx.tx as int
        }),
{
    let after = s.record(tx);
    assert forall|i: int| 0 <= i < after.history.len() implies {
        let entry = #[trigger] after.history[i];
        &&& entry.0 == after.history[0].0 + i
        &&& entry.1.tx == entry.0
        &&& entry.1.wf()
    } by {
        if i < s.history.len() {
            assert(s.history[i].0 == s.history[0].0 + i);
        }
        if s.history.len() > 0 {
            assert(s.history[0].0 == s.history[0].0 + 0);
            assert(s.history[s.history.len() - 1].0 == s.history[0].0 + s.history.len() - 1);
        }
    }
}

/// Setting or clearing a dispute flag keeps the ledger well formed and
/// touches neither the accounts nor the id recorded last.
pub proof fn lemma_set_disputed_keeps_wf(s: LedgerState, id: TransactionId, disputed: bool)
    requires
        s.wf(),
    ensures
        s.set_disputed(id, disputed).wf(),
        s.set_disputed(id, disputed).accounts == s.accounts,
        s.set_disputed(id, disputed).buffer == s.buffer,
        s.set_disputed(id, disputed).last_id() == s.last_id(),
{
    match s.history_index(id) {
        Some(i) => {
            assert(s.history[i].0 == id);
            lemma_record_keeps_wf(s, s.history[i].1.with_disputed(disputed));
            assert(s.set_disputed(id, disputed) == s.record(s.history[i].1.with_disputed(disputed)));
        },
        None => {},
    }
}

/// Putting a balanced account into the ledger keeps it well formed.
pub proof fn lemma_with_account_keeps_wf(s: LedgerState, client: Client, account: Account)
    requires
        s.wf(),
        account.wf(),
        account.client_id == client,
    ensures
        s.with_account(client, account).wf(),
{
    let after = s.with_account(client, account);
    assert forall|c: Client| after.accounts.contains_key(c) implies (
    #[trigger] after.accounts[c]).wf() && after.accounts[c].client_id == c by {
        if c != client {
            assert(s.accounts.contains_key(c));
        }
    }
}

/// Dispatching a transaction that the ledger admits keeps every account
/// balanced, keeps frozen accounts frozen, and keeps history and buffer in
/// order. A deposit or withdrawal with a new id makes that id the last.
pub proof fn lemma_dispatch_keeps_invariant(s: LedgerState, tx: TransactionState)
    requires
        s.wf(),
        tx.wf(),
        s.admits(tx),
    ensures
        s.spec_dispatch(tx).0.wf(),
        locks_kept(s, s.spec_dispatch(tx).0),
        tx.is_recorded_kind() ==> s.spec_dispatch(tx).0.history.len() > 0 && s.spec_dispatch(
            tx,
        ).0.last_id() == (if s.history_index(tx.tx) is Some {
            s.last_id()
        } else {
            tx.tx as int
        }),
{
    match tx.tx_type {
        TransactionType::Deposit => {
            let r = s.record(tx);
            lemma_record_keeps_wf(s, tx);
            if let Some(amount) = tx.amount {
                if r.accounts.contains_key(tx.client) {
                    let account = r.accounts[tx.client];
                    assert(account.wf());
                    lemma_with_account_keeps_wf(r, tx.client, account.spec_deposit(amount).0);
                } else {
                    lemma_with_account_keeps_wf(r, tx.client, Account::spec_new(amount, tx.client));
                }
            }
        },
        TransactionType::Withdrawal => {
            let r = s.record(tx);
            lemma_record_keeps_wf(s, tx);
            if let Some(amount) = tx.amount {
                if r.accounts.contains_key(tx.client) {
                    let account = r.accounts[tx.client];
                    assert(account.wf());
                    lemma_with_account_keeps_wf(r, tx.client, account.spec_withdraw(amount).0);
                } else {
                    lemma_enqueue_keeps_wf(r, tx);
                }
            }
        },
        TransactionType::Dispute => {
            let r = s.set_disputed(tx.tx, true);
            lemma_set_disputed_keeps_wf(s, tx.tx, true);
            if let Ok(amount) = r.lookup_amount(tx.tx, false) {
                if r.accounts.contains_key(tx.client) {
                    let account = r.accounts[tx.client];
                    assert(account.wf());
                    lemma_with_account_keeps_wf(r, tx.client, account.spec_dispute(amount).0);
                }
            }
        },
        TransactionType::Chargeback => {
            if let Ok(amount) = s.lookup_amount(tx.tx, true) {
                if s.accounts.contains_key(tx.client) {
                    let account = s.accounts[tx.client];
                    assert(account.wf());
                    lemma_with_account_keeps_wf(s, tx.client, account.spec_chargeback(amount).0);
                }
            }
        },
        TransactionType::Resolve => {
            if let Ok(amount) = s.lookup_amount(tx.tx, true) {
                if s.accounts.contains_key(tx.client) {
                    let account = s.accounts[tx.client];
                    assert(account.wf());
                    let after = s.with_account(tx.client, account.spec_resolve(amount).0);
                    lemma_with_account_keeps_wf(s, tx.client, account.spec_resolve(amount).0);
                    lemma_set_disputed_keeps_wf(after, tx.tx, false);
                }
            }
        },
    }
}

/// Draining keeps every account balanced and frozen accounts frozen.
pub proof fn lemma_drain_keeps_invariant(s: LedgerState)
    requires
        s.wf(),
    ensures
        s.spec_drain().0.wf(),
        locks_kept(s, s.spec_drain().0),
    decreases 0x1_0000_0000 - s.last_id(),
{
    if s.head_ready() {
        lemma_pop_keeps_wf(s);
        lemma_drain_step_records_next(s);
        lemma_dispatch_keeps_invariant(s.pop(), s.buffer[0]);
        let (next, r) = s.pop().spec_dispatch(s.buffer[0]);
        if r is Ok {
            lemma_drain_keeps_invariant(next);
        }
    }
}

/// At every point that `process_transaction` can reach from a well-formed
/// ledger, the total of each account is its available plus its held funds,
/// and an account that was frozen is frozen still.
pub proof fn lemma_process_keeps_invariant(s: LedgerState, tx: TransactionState)
    requires
        s.wf(),
        tx.wf(),
    ensures
        s.spec_process(tx).0.wf(),
        locks_kept(s, s.spec_process(tx).0),
{
    if s.history.len() > 0 && tx.is_recorded_kind() {
        if tx.tx != s.last_id() + 1 {
            lemma_enqueue_keeps_wf(s, tx);
        } else if s.head_ready() {
            lemma_pop_keeps_wf(s);
            lemma_drain_step_records_next(s);
            lemma_dispatch_keeps_invariant(s.pop(), s.buffer[0]);
            let (next, r) = s.pop().spec_dispatch(s.buffer[0]);
            if r is Ok {
                assert(next.history[next.history.len() - 1].0 == tx.tx);
                assert(next.history_index(tx.tx) is Some);
                lemma_dispatch_and_drain_keeps_invariant(next, tx);
            }
        } else {
            lemma_dispatch_and_drain_keeps_invariant(s, tx);
        }
    } else {
        lemma_dispatch_and_drain_keeps_invariant(s, tx);
    }
}

/// Dispatching and then draining keeps every account balanced and frozen
/// accounts frozen.
pub proof fn lemma_dispatch_and_drain_keeps_invariant(s: LedgerState, tx: TransactionState)
    requires
        s.wf(),
        tx.wf(),
        s.admits(tx),
    ensures
        s.dispatch_and_drain(tx).0.wf(),
        locks_kept(s, s.dispatch_and_drain(tx).0),
{
    lemma_dispatch_keeps_invariant(s, tx);
    let (next, r) = s.spec_dispatch(tx);
    if r is Ok {
        lemma_drain_keeps_invariant(next);
    }
}

/// Once an account is frozen, every deposit and withdrawal for its client
/// is refused as locked, and the accounts stay as they are.
pub proof fn lemma_locked_account_refuses(s: LedgerState, tx: TransactionState)
    requires
        s.wf(),
        tx.is_recorded_kind(),
        tx.amount is Some,
        s.accounts.contains_key(tx.client),
        s.accounts[tx.client].locked,
    ensures
        s.spec_dispatch(tx).1 == Err::<(), TransactionError>(
            TransactionError::Account(AccountError::AccountLocked(tx.client)),
        ),
        s.spec_dispatch(tx).0.accounts == s.accounts,
        s.spec_dispatch(tx).0.buffer == s.buffer,
        s.spec_dispatch(tx).0.history == s.record(tx).history,
{
    assert(s.accounts[tx.client].client_id == tx.client);
    assert(s.spec_dispatch(tx).0.accounts =~= s.accounts);
}

/// Once an account is frozen, every dispute, resolve and chargeback for its
/// client that finds its record (with an amount, and for a resolve or
/// chargeback under dispute) is refused as locked. Accounts and buffer stay
/// as they are; a dispute has set the flag of the record, a resolve or
/// chargeback leaves history alone.
pub proof fn lemma_locked_account_refuses_disputes(s: LedgerState, tx: TransactionState)
    requires
        s.wf(),
        !tx.is_recorded_kind(),
        s.accounts.contains_key(tx.client),
        s.accounts[tx.client].locked,
        s.reaches_account(tx),
    ensures
        s.spec_dispatch(tx).1 == Err::<(), TransactionError>(
            TransactionError::Account(AccountError::AccountLocked(tx.client)),
        ),
        s.spec_dispatch(tx).0.accounts == s.accounts,
        s.spec_dispatch(tx).0.buffer == s.buffer,
        s.spec_dispatch(tx).0.history == (if tx.tx_type == TransactionType::Dispute {
            s.set_disputed(tx.tx, true).history
        } else {
            s.history
        }),
{
    let i = s.history_index(tx.tx).unwrap();
    assert(s.history[i].0 == tx.tx);
    assert(s.accounts[tx.client].client_id == tx.client);
    assert(s.spec_dispatch(tx).0.accounts =~= s.accounts);
}

} // verus!
