//! Transaction records as they arrive, and as the ledger keeps them.
use crate::amount::Amount;
use vstd::prelude::*;

verus! {

/// The five kinds of transaction.
#[derive(Debug, Clone, Copy, PartialEq, Eq)]
pub enum TransactionType {
    /// A credit to the client's account: available and total rise.
    Deposit,
    /// A debit to the client's account: available and total fall.
    Withdrawal,
    /// A claim that an earlier transaction was erroneous: its amount moves
    /// from available to held.
    Dispute,
    /// The final state of a dispute: the held amount leaves the account and
    /// the account is frozen.
    Chargeback,
    /// The settlement of a dispute: the held amount becomes available again.
    Resolve,
}

/// A transaction as it is received.
#[derive(Debug, Clone, Copy)]
pub struct Transaction {
    pub tx_type: TransactionType,
    pub client: u16,
    pub tx: u32,
    pub amount: Option<Amount>,
}

/// A transaction as the ledger keeps it: the record and whether it is
/// currently disputed.
#[derive(Debug, Clone, Copy)]
pub struct TransactionState {
    pub tx_type: TransactionType,
    pub client: u16,
    pub tx: u32,
    pub amount: Option<Amount>,
    pub disputed: bool,
}

impl TransactionState {
    /// The amount, where there is one, fits the decimal mantissa.
    pub open spec fn wf(&self) -> bool {
        self.amount matches Some(a) ==> a.wf()
    }

    /// Whether the transaction is one that is recorded in history.
    pub open spec fn is_recorded_kind(&self) -> bool {
        self.tx_type == TransactionType::Deposit || self.tx_type == TransactionType::Withdrawal
    }

    /// The same transaction with its dispute flag set to `disputed`.
    pub open spec fn with_disputed(self, disputed: bool) -> TransactionState {
        TransactionState { disputed, ..self }
    }
}

impl vstd::std_specs::convert::FromSpecImpl<Transaction> for TransactionState {
    open spec fn obeys_from_spec() -> bool {
        true
    }

    open spec fn from_spec(value: Transaction) -> TransactionState {
        TransactionState {
            tx_type: value.tx_type,
            client: value.client,
            tx: value.tx,
            amount: value.amount,
            disputed: false,
        }
    }
}

impl From<Transaction> for TransactionState {
    /// A record enters processing undisputed.
    fn from(value: Transaction) -> (r: TransactionState) {
        TransactionState {
            tx_type: value.tx_type,
            client: value.client,
            tx: value.tx,
            amount: value.amount,
            disputed: false,
        }
    }
}

} // verus!
