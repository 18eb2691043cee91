use icp_transfer_backend::{
    Action, Bank, BlockQueryOutcome, Identity, LedgerOp, LegacySnapshot, RestoreOutcome,
    TransferEvent, TransferResult, VerificationError,
};

fn id(bytes: &[u8]) -> Identity {
    Identity::new(bytes.to_vec())
}

/// The 32-byte account the ledger itself derives for a principal under the
/// default subaccount, computed with the real ledger-types crate.
fn account(principal_bytes: &[u8]) -> Vec<u8> {
    let p = candid::Principal::from_slice(principal_bytes);
    let a = ic_ledger_types::AccountIdentifier::new(&p, &ic_ledger_types::DEFAULT_SUBACCOUNT);
    let s: &[u8] = a.as_ref();
    s.to_vec()
}

const SELF_BYTES: &[u8] = &[9, 9, 9];
const USER_BYTES: &[u8] = &[1, 2, 3];

fn fresh_bank(allowed: Vec<Identity>) -> Bank {
    Bank::new(allowed, id(SELF_BYTES))
}

fn good_transfer(amount_e8s: u64) -> BlockQueryOutcome {
    BlockQueryOutcome::Found(Some(LedgerOp::Transfer {
        from: account(USER_BYTES),
        to: account(SELF_BYTES),
        amount_e8s,
    }))
}

fn deposit(bank: &mut Bank, user: &Identity, amount: u64, block: u64, outcome: &BlockQueryOutcome) -> bool {
    if bank.begin_deposit(block).is_err() {
        return false;
    }
    bank.finish_deposit(&id(USER_BYTES), user, amount, block, outcome, 1000)
}

#[test]
fn deposit_scenario() {
    // A deposit of 100_000_000 units verified against block 42.
    let mut bank = fresh_bank(Vec::new());
    let user = id(USER_BYTES);
    let outcome = good_transfer(100_000_000);
    assert!(deposit(&mut bank, &user, 100_000_000, 42, &outcome));
    assert_eq!(bank.get_balance_of(&user), 100_000_000);
    assert_eq!(bank.get_silver_pot(), 1_500_000);
    // A second claim of block 42 is refused and changes nothing.
    assert!(!deposit(&mut bank, &user, 100_000_000, 42, &outcome));
    assert_eq!(bank.get_balance_of(&user), 100_000_000);
}

#[test]
fn idempotent_crediting() {
    let mut bank = fresh_bank(Vec::new());
    let user = id(USER_BYTES);
    let outcome = good_transfer(50);
    assert!(deposit(&mut bank, &user, 50, 7, &outcome));
    let logs_before = bank.get_logs().len();
    // The same block is refused outright, whatever amount is claimed now.
    assert_eq!(bank.begin_deposit(7), Err(VerificationError::AlreadyCredited));
    assert_eq!(
        bank.verify_deposit(&user, 999, 7, &good_transfer(999)),
        Err(VerificationError::AlreadyCredited)
    );
    assert_eq!(bank.get_balance_of(&user), 50);
    assert_eq!(bank.get_logs().len(), logs_before);
}

#[test]
fn in_flight_conflict() {
    let mut bank = fresh_bank(Vec::new());
    assert_eq!(bank.begin_deposit(5), Ok(()));
    // A concurrent claim of the same block, before the query returns.
    assert_eq!(bank.begin_deposit(5), Err(VerificationError::AlreadyInFlight));
    // A failed verification releases the reservation.
    let rejected = bank.finish_deposit(
        &id(USER_BYTES),
        &id(USER_BYTES),
        10,
        5,
        &BlockQueryOutcome::NotFound,
        1000,
    );
    assert!(!rejected);
    assert_eq!(bank.begin_deposit(5), Ok(()));
}

#[test]
fn deposit_pot_side_effect() {
    // Every successful deposit moves each pot by its fixed bonus,
    // regardless of the deposited amount.
    let mut bank = fresh_bank(Vec::new());
    let user = id(USER_BYTES);
    assert!(deposit(&mut bank, &user, 1, 1, &good_transfer(1)));
    assert!(deposit(&mut bank, &user, 999_999, 2, &good_transfer(999_999)));
    assert_eq!(bank.get_silver_pot(), 2 * 1_500_000);
    assert_eq!(bank.get_gold_pot(), 2 * 2_000_000);
    assert_eq!(bank.get_high_score_pot(), 2 * 1_000_000);
    // The two deposits to the same user accumulate.
    assert_eq!(bank.get_balance_of(&user), 1_000_000);
    assert_eq!(bank.get_total_pot(), 2 * 1_500_000 + 2 * 2_000_000);
}

#[test]
fn verification_error_reasons() {
    let bank = fresh_bank(Vec::new());
    let user = id(USER_BYTES);
    let check = |outcome: &BlockQueryOutcome| bank.verify_deposit(&user, 100, 3, outcome);
    assert_eq!(
        check(&BlockQueryOutcome::QueryFailed("no route".to_string())),
        Err(VerificationError::LedgerQueryFailed)
    );
    assert_eq!(check(&BlockQueryOutcome::NotFound), Err(VerificationError::BlockNotFound));
    assert_eq!(
        check(&BlockQueryOutcome::Found(None)),
        Err(VerificationError::OperationMissing)
    );
    assert_eq!(
        check(&BlockQueryOutcome::Found(Some(LedgerOp::Other))),
        Err(VerificationError::NotATransfer)
    );
    let wrong_to = BlockQueryOutcome::Found(Some(LedgerOp::Transfer {
        from: account(USER_BYTES),
        to: account(&[8, 8]),
        amount_e8s: 100,
    }));
    assert_eq!(check(&wrong_to), Err(VerificationError::WrongDestination));
    let wrong_from = BlockQueryOutcome::Found(Some(LedgerOp::Transfer {
        from: account(&[8, 8]),
        to: account(SELF_BYTES),
        amount_e8s: 100,
    }));
    assert_eq!(check(&wrong_from), Err(VerificationError::WrongSource));
    let wrong_amount = BlockQueryOutcome::Found(Some(LedgerOp::Transfer {
        from: account(USER_BYTES),
        to: account(SELF_BYTES),
        amount_e8s: 99,
    }));
    assert_eq!(check(&wrong_amount), Err(VerificationError::AmountMismatch));
    assert_eq!(check(&good_transfer(100)), Ok(()));
}

#[test]
fn accounts_are_derived_not_copied() {
    // A block whose destination holds the service's raw principal bytes,
    // rather than the account the ledger derives from them, must fail.
    let bank = fresh_bank(Vec::new());
    let user = id(USER_BYTES);
    let raw_to = BlockQueryOutcome::Found(Some(LedgerOp::Transfer {
        from: account(USER_BYTES),
        to: SELF_BYTES.to_vec(),
        amount_e8s: 100,
    }));
    assert_eq!(
        bank.verify_deposit(&user, 100, 3, &raw_to),
        Err(VerificationError::WrongDestination)
    );
    let raw_from = BlockQueryOutcome::Found(Some(LedgerOp::Transfer {
        from: USER_BYTES.to_vec(),
        to: account(SELF_BYTES),
        amount_e8s: 100,
    }));
    assert_eq!(
        bank.verify_deposit(&user, 100, 3, &raw_from),
        Err(VerificationError::WrongSource)
    );
}

#[test]
fn failed_deposit_mutates_nothing() {
    let mut bank = fresh_bank(Vec::new());
    let user = id(USER_BYTES);
    assert_eq!(bank.begin_deposit(11), Ok(()));
    let ok = bank.finish_deposit(&user, &user, 100, 11, &good_transfer(99), 1000);
    assert!(!ok);
    assert_eq!(bank.get_balance_of(&user), 0);
    assert_eq!(bank.get_silver_pot(), 0);
    assert_eq!(bank.get_gold_pot(), 0);
    assert_eq!(bank.get_high_score_pot(), 0);
    assert_eq!(bank.get_logs().len(), 0);
}

#[test]
fn balance_non_negativity() {
    let mut bank = fresh_bank(Vec::new());
    let user = id(USER_BYTES);
    assert!(deposit(&mut bank, &user, 100, 21, &good_transfer(100)));
    // Overdraw is rejected before any external call.
    assert!(!bank.withdraw_check(&user, 101));
    assert!(bank.withdraw_check(&user, 100));
    // Even a completed transfer does not decrement past the balance.
    let r = bank.finish_withdraw(&user, 101, TransferEvent::Succeeded(500), 1000);
    assert_eq!(r, TransferResult::Refused("Insufficient balance".to_string()));
    assert_eq!(bank.get_balance_of(&user), 100);
}

#[test]
fn withdraw_outcomes() {
    let mut bank = fresh_bank(Vec::new());
    let user = id(USER_BYTES);
    assert!(deposit(&mut bank, &user, 100, 22, &good_transfer(100)));
    let logs_before = bank.get_logs().len();
    // The ledger rejecting, or the call failing, changes nothing.
    let r = bank.finish_withdraw(&user, 40, TransferEvent::Rejected("bad fee".to_string()), 1000);
    assert_eq!(r, TransferResult::Refused("bad fee".to_string()));
    let r = bank.finish_withdraw(&user, 40, TransferEvent::Failed("no reply".to_string()), 1000);
    assert_eq!(r, TransferResult::Refused("no reply".to_string()));
    assert_eq!(bank.get_balance_of(&user), 100);
    assert_eq!(bank.get_logs().len(), logs_before);
    // A completed transfer decrements by exactly the amount and is logged.
    let r = bank.finish_withdraw(&user, 40, TransferEvent::Succeeded(77), 2000);
    assert_eq!(r, TransferResult::Completed(77));
    assert_eq!(bank.get_balance_of(&user), 60);
    let logs = bank.get_logs();
    assert_eq!(logs.len(), logs_before + 1);
    let last = &logs[logs.len() - 1];
    assert_eq!(last.action, Action::Withdraw);
    assert_eq!(last.amount_e8s, 40);
    assert_eq!(last.block_index, Some(77));
    assert_eq!(last.timestamp, 2000);
}

#[test]
fn migration_round_trip() {
    let mut bank = fresh_bank(vec![id(&[5, 5])]);
    let user = id(USER_BYTES);
    assert!(deposit(&mut bank, &user, 100, 42, &good_transfer(100)));
    assert!(bank.add_to_gold_pot(&id(&[5, 5]), 30, 1500));
    let snap = bank.snapshot();
    let mut restored = Bank::restore(Vec::new(), id(SELF_BYTES), RestoreOutcome::Current(snap));
    assert_eq!(restored.get_balance_of(&user), 100);
    assert_eq!(restored.get_silver_pot(), 1_500_000);
    assert_eq!(restored.get_gold_pot(), 2_000_000 + 30);
    assert_eq!(restored.get_high_score_pot(), 1_000_000);
    assert_eq!(restored.get_logs().len(), bank.get_logs().len());
    // The restored state refuses the old block but accepts a new one.
    assert_eq!(restored.begin_deposit(42), Err(VerificationError::AlreadyCredited));
    assert_eq!(restored.begin_deposit(43), Ok(()));
}

#[test]
fn legacy_restore_defaults_pots() {
    let mut bank = fresh_bank(Vec::new());
    let user = id(USER_BYTES);
    assert!(deposit(&mut bank, &user, 100, 42, &good_transfer(100)));
    let snap = bank.snapshot();
    let legacy = LegacySnapshot {
        balances: snap.balances,
        credited_blocks: snap.credited_blocks,
        logs: snap.logs,
    };
    let mut restored = Bank::restore(Vec::new(), id(SELF_BYTES), RestoreOutcome::Legacy(legacy));
    assert_eq!(restored.get_balance_of(&user), 100);
    assert_eq!(restored.get_silver_pot(), 0);
    assert_eq!(restored.get_gold_pot(), 0);
    assert_eq!(restored.get_high_score_pot(), 0);
    assert_eq!(restored.get_logs().len(), bank.get_logs().len());
    assert_eq!(restored.begin_deposit(42), Err(VerificationError::AlreadyCredited));
}

#[test]
fn empty_restore_is_fresh_start() {
    let bank = Bank::restore(Vec::new(), id(SELF_BYTES), RestoreOutcome::Nothing);
    assert_eq!(bank.get_balance_of(&id(USER_BYTES)), 0);
    assert_eq!(bank.get_silver_pot(), 0);
    assert_eq!(bank.get_gold_pot(), 0);
    assert_eq!(bank.get_high_score_pot(), 0);
    assert_eq!(bank.get_logs().len(), 0);
}

#[test]
fn unknown_identity_has_zero_balance() {
    let bank = fresh_bank(Vec::new());
    assert_eq!(bank.get_balance_of(&id(&[42])), 0);
}
