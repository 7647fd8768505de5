use mini_payments_engine::account::AccountError;
use mini_payments_engine::amount::Amount;
use mini_payments_engine::ledger::{Ledger, LedgerError, TransactionError};
use mini_payments_engine::transaction::{Transaction, TransactionState, TransactionType};

fn dec(whole: i128) -> Amount {
    Amount::from_units(whole * 10_000).unwrap()
}

fn state(tx_type: TransactionType, client: u16, tx: u32, amount: Option<Amount>) -> TransactionState {
    TransactionState { tx_type, client, tx, amount, disputed: false }
}

fn balanced(ledger: &Ledger) -> bool {
    ledger.accounts.values().all(|a| {
        a.total_funds.units == a.available_funds.units + a.held_funds.units
    })
}

#[test]
fn test_deposit_new_account() {
    let mut ledger = Ledger::new();
    let tx = TransactionState {
        tx: 1,
        client: 1,
        tx_type: TransactionType::Deposit,
        amount: Some(dec(100)),
        disputed: false,
    };
    assert!(ledger.process_transaction(tx).is_ok());
    assert_eq!(ledger.accounts.len(), 1);
    assert_eq!(ledger.accounts[&1].total_funds, dec(100));
}

#[test]
fn test_withdrawal_insufficient_funds() {
    let mut ledger = Ledger::new();
    let deposit = TransactionState {
        tx: 1,
        client: 1,
        tx_type: TransactionType::Deposit,
        amount: Some(dec(50)),
        disputed: false,
    };
    let withdrawal = TransactionState {
        tx: 2,
        client: 1,
        tx_type: TransactionType::Withdrawal,
        amount: Some(dec(100)),
        disputed: false,
    };
    assert!(ledger.process_transaction(deposit).is_ok());
    assert!(ledger.process_transaction(withdrawal).is_err());
}

#[test]
fn test_dispute_non_existent_transaction() {
    let mut ledger = Ledger::new();
    let tx = TransactionState {
        tx: 1,
        client: 1,
        tx_type: TransactionType::Dispute,
        amount: None,
        disputed: false,
    };
    assert!(ledger.process_transaction(tx).is_err());
}

#[test]
fn test_withdrawal() {
    let mut ledger = Ledger::new();
    let tx = TransactionState {
        tx: 1,
        client: 1,
        tx_type: TransactionType::Deposit,
        amount: Some(dec(1)),
        disputed: false,
    };

    assert!(ledger.process_transaction(tx).is_ok());

    let tx_2 = TransactionState {
        tx: 2,
        client: 1,
        tx_type: TransactionType::Withdrawal,
        amount: Some(dec(1)),
        disputed: false,
    };

    assert!(ledger.process_transaction(tx_2).is_ok());

    assert_eq!(ledger.accounts[&1].total_funds, dec(0))
}

#[test]
fn test_dispute_resolve() {
    let mut ledger = Ledger::new();
    let tx = TransactionState {
        tx: 1,
        client: 1,
        tx_type: TransactionType::Deposit,
        amount: Some(dec(1)),
        disputed: false,
    };

    assert!(ledger.process_transaction(tx).is_ok());

    let tx_2 = TransactionState {
        tx: 1,
        client: 1,
        tx_type: TransactionType::Dispute,
        amount: None,
        disputed: false,
    };

    assert!(ledger.process_transaction(tx_2).is_ok());

    assert_eq!(ledger.accounts[&1].total_funds, dec(1));
    assert_eq!(ledger.accounts[&1].held_funds, dec(1));
    assert_eq!(ledger.accounts[&1].available_funds, dec(0));

    let tx_3 = TransactionState {
        tx: 1,
        client: 1,
        tx_type: TransactionType::Resolve,
        amount: None,
        disputed: false,
    };

    assert!(ledger.process_transaction(tx_3).is_ok());

    assert_eq!(ledger.accounts[&1].total_funds, dec(1));
    assert_eq!(ledger.accounts[&1].held_funds, dec(0));
    assert_eq!(ledger.accounts[&1].available_funds, dec(1));
}

#[test]
fn test_dispute_chargeback() {
    let mut ledger = Ledger::new();
    let tx = TransactionState {
        tx: 1,
        client: 1,
        tx_type: TransactionType::Deposit,
        amount: Some(dec(1)),
        disputed: false,
    };

    assert!(ledger.process_transaction(tx).is_ok());

    let tx_2 = TransactionState {
        tx: 1,
        client: 1,
        tx_type: TransactionType::Dispute,
        amount: None,
        disputed: false,
    };

    assert!(ledger.process_transaction(tx_2).is_ok());

    assert_eq!(ledger.accounts[&1].total_funds, dec(1));
    assert_eq!(ledger.accounts[&1].held_funds, dec(1));
    assert_eq!(ledger.accounts[&1].available_funds, dec(0));

    let tx_3 = TransactionState {
        tx: 1,
        client: 1,
        tx_type: TransactionType::Chargeback,
        amount: None,
        disputed: false,
    };

    assert!(ledger.process_transaction(tx_3).is_ok());

    assert_eq!(ledger.accounts[&1].total_funds, dec(0));
    assert_eq!(ledger.accounts[&1].held_funds, dec(0));
    assert_eq!(ledger.accounts[&1].available_funds, dec(0));
}

#[test]
fn test_withdraw_out_of_place_transaction() {
    let mut ledger = Ledger::new();
    let tx = TransactionState {
        tx: 1,
        client: 1,
        tx_type: TransactionType::Deposit,
        amount: Some(dec(1)),
        disputed: false,
    };

    assert!(ledger.process_transaction(tx).is_ok());

    let tx_2 = TransactionState {
        tx: 3,
        client: 2,
        tx_type: TransactionType::Withdrawal,
        amount: Some(dec(1)),
        disputed: false,
    };

    assert!(ledger.process_transaction(tx_2).is_ok());

    let tx_3 = TransactionState {
        tx: 2,
        client: 2,
        tx_type: TransactionType::Deposit,
        amount: Some(dec(1)),
        disputed: false,
    };

    assert!(ledger.process_transaction(tx_3).is_ok());
    assert_eq!(ledger.accounts[&1].total_funds, dec(1));
    assert_eq!(ledger.accounts[&2].total_funds, dec(0));
}

#[test]
fn test_chargeback_non_disputed_transaction() {
    let mut ledger = Ledger::new();
    let deposit = TransactionState {
        tx: 1,
        client: 1,
        tx_type: TransactionType::Deposit,
        amount: Some(dec(100)),
        disputed: false,
    };
    let chargeback = TransactionState {
        tx: 1,
        client: 1,
        tx_type: TransactionType::Chargeback,
        amount: None,
        disputed: false,
    };
    assert!(ledger.process_transaction(deposit).is_ok());

    assert!(matches!(
        ledger.process_transaction(chargeback),
        Err(TransactionError::Ledger(LedgerError::TransactionIsNotDisputed(1)))
    ));
}

#[test]
fn test_resolve_non_disputed_transaction() {
    let mut ledger = Ledger::new();
    let deposit = TransactionState {
        tx: 1,
        client: 1,
        tx_type: TransactionType::Deposit,
        amount: Some(dec(100)),
        disputed: false,
    };
    let resolve = TransactionState {
        tx: 1,
        client: 1,
        tx_type: TransactionType::Resolve,
        amount: None,
        disputed: false,
    };
    assert!(ledger.process_transaction(deposit).is_ok());

    assert!(matches!(
        ledger.process_transaction(resolve),
        Err(TransactionError::Ledger(LedgerError::TransactionIsNotDisputed(1)))
    ));
}

#[test]
fn test_transaction_without_amount() {
    let mut ledger = Ledger::new();
    let tx = TransactionState {
        tx: 1,
        client: 1,
        tx_type: TransactionType::Deposit,
        amount: None,
        disputed: false,
    };

    assert!(matches!(
        ledger.process_transaction(tx),
        Err(TransactionError::Ledger(LedgerError::TransactionAmountMissing(1)))
    ));
}

#[test]
fn new_ledger_is_empty() {
    let ledger = Ledger::new();
    assert!(ledger.accounts.is_empty());
    assert!(ledger.history.is_empty());
    assert!(ledger.unprocessed.is_empty());
}

#[test]
fn first_deposit_opens_the_account() {
    let mut ledger = Ledger::new();
    let amount = Amount::from_units(15_000).unwrap();
    assert_eq!(ledger.process_transaction(state(TransactionType::Deposit, 5, 10, Some(amount))), Ok(()));
    let account = ledger.accounts[&5];
    assert_eq!(account.client_id, 5);
    assert_eq!(account.available_funds, amount);
    assert_eq!(account.total_funds, amount);
    assert_eq!(account.held_funds.units, 0);
    assert!(!account.locked);
    assert_eq!(ledger.history.len(), 1);
    assert_eq!(ledger.history.last().map(|(k, _)| *k), Some(10));
}

#[test]
fn second_deposit_adds_to_the_account() {
    let mut ledger = Ledger::new();
    ledger.process_transaction(state(TransactionType::Deposit, 1, 1, Some(dec(2)))).unwrap();
    ledger.process_transaction(state(TransactionType::Deposit, 1, 2, Some(dec(3)))).unwrap();
    assert_eq!(ledger.accounts[&1].available_funds, dec(5));
    assert_eq!(ledger.accounts[&1].total_funds, dec(5));
    assert_eq!(ledger.history.len(), 2);
    assert!(balanced(&ledger));
}

#[test]
fn withdrawal_beyond_available_leaves_the_account() {
    let mut ledger = Ledger::new();
    ledger.process_transaction(state(TransactionType::Deposit, 1, 1, Some(dec(50)))).unwrap();
    let r = ledger.process_transaction(state(TransactionType::Withdrawal, 1, 2, Some(dec(100))));
    assert_eq!(
        r,
        Err(TransactionError::Account(AccountError::InsufficientFunds(1, dec(100))))
    );
    assert_eq!(ledger.accounts[&1].available_funds, dec(50));
    assert_eq!(ledger.accounts[&1].total_funds, dec(50));
    assert_eq!(ledger.accounts[&1].held_funds, dec(0));
    assert_eq!(ledger.history.len(), 2);
}

#[test]
fn out_of_sequence_deposit_is_deferred_then_drained() {
    let mut ledger = Ledger::new();
    ledger.process_transaction(state(TransactionType::Deposit, 1, 1, Some(dec(1)))).unwrap();
    assert_eq!(ledger.process_transaction(state(TransactionType::Deposit, 1, 4, Some(dec(8)))), Ok(()));
    assert_eq!(ledger.process_transaction(state(TransactionType::Deposit, 1, 3, Some(dec(4)))), Ok(()));
    assert_eq!(ledger.accounts[&1].total_funds, dec(1));
    assert_eq!(ledger.unprocessed.len(), 2);
    assert_eq!(ledger.unprocessed[0].tx, 3);
    assert_eq!(ledger.unprocessed[1].tx, 4);
    assert_eq!(ledger.history.len(), 1);
    assert_eq!(ledger.process_transaction(state(TransactionType::Deposit, 1, 2, Some(dec(2)))), Ok(()));
    assert_eq!(ledger.accounts[&1].total_funds, dec(15));
    assert_eq!(ledger.accounts[&1].available_funds, dec(15));
    assert!(ledger.unprocessed.is_empty());
    assert_eq!(ledger.history.len(), 4);
    let ids: Vec<u32> = ledger.history.keys().copied().collect();
    assert_eq!(ids, vec![1, 2, 3, 4]);
    assert!(balanced(&ledger));
}

#[test]
fn deferred_withdrawal_is_drained_after_the_deposit() {
    let mut ledger = Ledger::new();
    ledger.process_transaction(state(TransactionType::Deposit, 1, 1, Some(dec(1)))).unwrap();
    assert_eq!(ledger.process_transaction(state(TransactionType::Withdrawal, 2, 3, Some(dec(1)))), Ok(()));
    assert_eq!(ledger.accounts.len(), 1);
    assert_eq!(ledger.unprocessed.len(), 1);
    assert_eq!(ledger.process_transaction(state(TransactionType::Deposit, 2, 2, Some(dec(1)))), Ok(()));
    assert_eq!(ledger.accounts[&1].total_funds, dec(1));
    assert_eq!(ledger.accounts[&2].total_funds, dec(0));
    assert_eq!(ledger.accounts[&2].available_funds, dec(0));
    assert!(ledger.unprocessed.is_empty());
}

#[test]
fn withdrawal_for_an_absent_account_waits_in_the_buffer() {
    let mut ledger = Ledger::new();
    assert_eq!(ledger.process_transaction(state(TransactionType::Withdrawal, 9, 5, Some(dec(1)))), Ok(()));
    assert!(ledger.accounts.is_empty());
    assert_eq!(ledger.history.len(), 1);
    assert_eq!(ledger.unprocessed.len(), 1);
    assert_eq!(ledger.unprocessed[0].tx, 5);
    assert_eq!(ledger.process_transaction(state(TransactionType::Deposit, 9, 6, Some(dec(3)))), Ok(()));
    assert_eq!(ledger.accounts[&9].total_funds, dec(3));
    assert_eq!(ledger.unprocessed.len(), 1);
    assert_eq!(ledger.history.len(), 2);
}

#[test]
fn deferred_transactions_stay_sorted_by_id() {
    let mut ledger = Ledger::new();
    ledger.process_transaction(state(TransactionType::Deposit, 1, 1, Some(dec(10)))).unwrap();
    ledger.process_transaction(state(TransactionType::Withdrawal, 7, 2, Some(dec(1)))).unwrap();
    assert_eq!(ledger.unprocessed.len(), 1);
    assert_eq!(ledger.history.len(), 2);
    ledger.process_transaction(state(TransactionType::Deposit, 1, 3, Some(dec(1)))).unwrap();
    assert_eq!(ledger.history.len(), 3);
    ledger.process_transaction(state(TransactionType::Deposit, 1, 5, Some(dec(100)))).unwrap();
    assert_eq!(ledger.unprocessed.len(), 2);
    assert_eq!(ledger.unprocessed[0].tx, 2);
    assert_eq!(ledger.unprocessed[1].tx, 5);
    assert_eq!(ledger.accounts[&1].total_funds, dec(11));
}

#[test]
fn dispute_chargeback_locks_the_account_for_good() {
    let mut ledger = Ledger::new();
    ledger.process_transaction(state(TransactionType::Deposit, 1, 1, Some(dec(1)))).unwrap();
    assert_eq!(ledger.process_transaction(state(TransactionType::Dispute, 1, 1, None)), Ok(()));
    assert_eq!(ledger.accounts[&1].available_funds, dec(0));
    assert_eq!(ledger.accounts[&1].held_funds, dec(1));
    assert_eq!(ledger.accounts[&1].total_funds, dec(1));
    assert!(ledger.history[&1].disputed);
    assert_eq!(ledger.process_transaction(state(TransactionType::Chargeback, 1, 1, None)), Ok(()));
    assert_eq!(ledger.accounts[&1].available_funds, dec(0));
    assert_eq!(ledger.accounts[&1].held_funds, dec(0));
    assert_eq!(ledger.accounts[&1].total_funds, dec(0));
    assert!(ledger.accounts[&1].locked);
    assert!(ledger.history[&1].disputed);
    assert_eq!(
        ledger.process_transaction(state(TransactionType::Deposit, 1, 2, Some(dec(1)))),
        Err(TransactionError::Account(AccountError::AccountLocked(1)))
    );
    assert_eq!(
        ledger.process_transaction(state(TransactionType::Withdrawal, 1, 3, Some(dec(1)))),
        Err(TransactionError::Account(AccountError::AccountLocked(1)))
    );
    assert_eq!(
        ledger.process_transaction(state(TransactionType::Dispute, 1, 1, None)),
        Err(TransactionError::Account(AccountError::AccountLocked(1)))
    );
    assert!(ledger.accounts[&1].locked);
    assert!(balanced(&ledger));
}

#[test]
fn resolve_clears_the_dispute_flag() {
    let mut ledger = Ledger::new();
    ledger.process_transaction(state(TransactionType::Deposit, 1, 1, Some(dec(5)))).unwrap();
    ledger.process_transaction(state(TransactionType::Dispute, 1, 1, None)).unwrap();
    assert!(ledger.history[&1].disputed);
    ledger.process_transaction(state(TransactionType::Resolve, 1, 1, None)).unwrap();
    assert!(!ledger.history[&1].disputed);
    assert_eq!(ledger.history.len(), 1);
    assert_eq!(
        ledger.process_transaction(state(TransactionType::Resolve, 1, 1, None)),
        Err(TransactionError::Ledger(LedgerError::TransactionIsNotDisputed(1)))
    );
    assert_eq!(ledger.accounts[&1].available_funds, dec(5));
}

#[test]
fn unknown_reference_is_refused_and_changes_nothing() {
    let mut ledger = Ledger::new();
    ledger.process_transaction(state(TransactionType::Deposit, 1, 1, Some(dec(5)))).unwrap();
    let cases = [
        (TransactionType::Dispute, LedgerError::TransactionNotFound(77)),
        (TransactionType::Resolve, LedgerError::TransactionIsNotDisputed(77)),
        (TransactionType::Chargeback, LedgerError::TransactionIsNotDisputed(77)),
    ];
    for (kind, expected) in cases {
        assert_eq!(
            ledger.process_transaction(state(kind, 1, 77, None)),
            Err(TransactionError::Ledger(expected))
        );
        assert_eq!(ledger.accounts.len(), 1);
        assert_eq!(ledger.accounts[&1].available_funds, dec(5));
        assert_eq!(ledger.accounts[&1].held_funds, dec(0));
        assert_eq!(ledger.accounts[&1].total_funds, dec(5));
        assert!(!ledger.accounts[&1].locked);
        assert_eq!(ledger.history.len(), 1);
        assert!(!ledger.history[&1].disputed);
        assert!(ledger.unprocessed.is_empty());
    }
}

#[test]
fn resolve_and_chargeback_on_an_empty_ledger_are_not_disputed() {
    let mut ledger = Ledger::new();
    assert_eq!(
        ledger.process_transaction(state(TransactionType::Resolve, 1, 7, None)),
        Err(TransactionError::Ledger(LedgerError::TransactionIsNotDisputed(7)))
    );
    assert_eq!(
        ledger.process_transaction(state(TransactionType::Chargeback, 1, 7, None)),
        Err(TransactionError::Ledger(LedgerError::TransactionIsNotDisputed(7)))
    );
    assert_eq!(
        ledger.process_transaction(state(TransactionType::Dispute, 1, 7, None)),
        Err(TransactionError::Ledger(LedgerError::TransactionNotFound(7)))
    );
    assert!(ledger.accounts.is_empty());
    assert!(ledger.history.is_empty());
    assert!(ledger.unprocessed.is_empty());
}

#[test]
fn locked_account_refuses_disputes_and_keeps_the_flag() {
    let mut ledger = Ledger::new();
    ledger.process_transaction(state(TransactionType::Deposit, 1, 1, Some(dec(5)))).unwrap();
    ledger.process_transaction(state(TransactionType::Deposit, 1, 2, Some(dec(3)))).unwrap();
    ledger.process_transaction(state(TransactionType::Dispute, 1, 1, None)).unwrap();
    ledger.process_transaction(state(TransactionType::Dispute, 1, 2, None)).unwrap();
    ledger.process_transaction(state(TransactionType::Chargeback, 1, 1, None)).unwrap();
    assert!(ledger.accounts[&1].locked);
    for kind in [TransactionType::Resolve, TransactionType::Chargeback, TransactionType::Dispute] {
        assert_eq!(
            ledger.process_transaction(state(kind, 1, 2, None)),
            Err(TransactionError::Account(AccountError::AccountLocked(1)))
        );
        assert!(ledger.history[&2].disputed);
        assert!(ledger.accounts[&1].locked);
        assert_eq!(ledger.accounts[&1].available_funds, dec(0));
        assert_eq!(ledger.accounts[&1].held_funds, dec(3));
        assert_eq!(ledger.accounts[&1].total_funds, dec(3));
    }
}

#[test]
fn chargeback_on_undisputed_transaction_does_not_lock() {
    let mut ledger = Ledger::new();
    ledger.process_transaction(state(TransactionType::Deposit, 1, 1, Some(dec(100)))).unwrap();
    assert_eq!(
        ledger.process_transaction(state(TransactionType::Chargeback, 1, 1, None)),
        Err(TransactionError::Ledger(LedgerError::TransactionIsNotDisputed(1)))
    );
    assert!(!ledger.accounts[&1].locked);
    assert_eq!(ledger.accounts[&1].available_funds, dec(100));
    assert_eq!(ledger.accounts[&1].held_funds, dec(0));
    assert_eq!(ledger.accounts[&1].total_funds, dec(100));
}

#[test]
fn dispute_for_a_client_without_account_is_refused() {
    let mut ledger = Ledger::new();
    ledger.process_transaction(state(TransactionType::Deposit, 1, 1, Some(dec(5)))).unwrap();
    assert_eq!(
        ledger.process_transaction(state(TransactionType::Dispute, 2, 1, None)),
        Err(TransactionError::Ledger(LedgerError::AccountMissing(2)))
    );
    assert!(ledger.history[&1].disputed);
    assert_eq!(ledger.accounts[&1].held_funds, dec(0));
}

#[test]
fn dispute_of_a_record_without_amount_is_refused() {
    let mut ledger = Ledger::new();
    assert_eq!(
        ledger.process_transaction(state(TransactionType::Withdrawal, 1, 1, None)),
        Err(TransactionError::Ledger(LedgerError::TransactionAmountMissing(1)))
    );
    assert_eq!(ledger.history.len(), 1);
    assert_eq!(
        ledger.process_transaction(state(TransactionType::Dispute, 1, 1, None)),
        Err(TransactionError::Ledger(LedgerError::TransactionAmountMissing(1)))
    );
}

#[test]
fn dispute_beyond_available_is_refused() {
    let mut ledger = Ledger::new();
    ledger.process_transaction(state(TransactionType::Deposit, 1, 1, Some(dec(5)))).unwrap();
    ledger.process_transaction(state(TransactionType::Withdrawal, 1, 2, Some(dec(3)))).unwrap();
    assert_eq!(
        ledger.process_transaction(state(TransactionType::Dispute, 1, 1, None)),
        Err(TransactionError::Account(AccountError::InsufficientFunds(1, dec(5))))
    );
    assert_eq!(ledger.accounts[&1].available_funds, dec(2));
    assert_eq!(ledger.accounts[&1].held_funds, dec(0));
}

#[test]
fn transaction_enters_processing_undisputed() {
    let record = Transaction {
        tx_type: TransactionType::Withdrawal,
        client: 4,
        tx: 9,
        amount: Some(dec(2)),
    };
    let kept = TransactionState::from(record);
    assert_eq!(kept.tx_type, TransactionType::Withdrawal);
    assert_eq!(kept.client, 4);
    assert_eq!(kept.tx, 9);
    assert_eq!(kept.amount, Some(dec(2)));
    assert!(!kept.disputed);
}

#[test]
fn buffered_head_of_the_same_id_goes_first() {
    let mut ledger = Ledger::new();
    ledger.process_transaction(state(TransactionType::Deposit, 1, 1, Some(dec(1)))).unwrap();
    ledger.process_transaction(state(TransactionType::Deposit, 1, 3, Some(dec(4)))).unwrap();
    assert_eq!(
        ledger.process_transaction(state(TransactionType::Deposit, 1, 2, None)),
        Err(TransactionError::Ledger(LedgerError::TransactionAmountMissing(2)))
    );
    assert_eq!(ledger.unprocessed.len(), 1);
    assert_eq!(ledger.history.len(), 2);
    assert_eq!(
        ledger.process_transaction(state(TransactionType::Withdrawal, 1, 3, Some(dec(5)))),
        Ok(())
    );
    assert!(ledger.unprocessed.is_empty());
    assert_eq!(ledger.history.len(), 3);
    assert_eq!(ledger.history[&3].tx_type, TransactionType::Withdrawal);
    assert_eq!(ledger.accounts[&1].total_funds, dec(0));
    assert_eq!(ledger.accounts[&1].available_funds, dec(0));
}

#[test]
fn nothing_follows_the_greatest_id() {
    let mut ledger = Ledger::new();
    assert_eq!(
        ledger.process_transaction(state(TransactionType::Deposit, 1, u32::MAX, Some(dec(1)))),
        Ok(())
    );
    assert_eq!(ledger.accounts[&1].total_funds, dec(1));
    assert_eq!(ledger.process_transaction(state(TransactionType::Deposit, 1, 0, Some(dec(1)))), Ok(()));
    assert_eq!(ledger.accounts[&1].total_funds, dec(1));
    assert_eq!(ledger.unprocessed.len(), 1);
    assert_eq!(ledger.history.len(), 1);
}

#[test]
fn overflowing_deposit_is_reported_and_changes_no_balance() {
    let mut ledger = Ledger::new();
    let top = Amount::from_units(mini_payments_engine::amount::MAX_UNITS).unwrap();
    ledger.process_transaction(state(TransactionType::Deposit, 1, 1, Some(top))).unwrap();
    assert_eq!(
        ledger.process_transaction(state(TransactionType::Deposit, 1, 2, Some(dec(1)))),
        Err(TransactionError::Account(AccountError::Overflow(1)))
    );
    assert_eq!(ledger.accounts[&1].total_funds, top);
    assert_eq!(ledger.accounts[&1].available_funds, top);
}
