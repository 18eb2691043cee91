use icp_transfer_backend::{
    Action, Bank, Identity, TransferArgs, TransferError, TransferEvent,
};

fn id(bytes: &[u8]) -> Identity {
    Identity::new(bytes.to_vec())
}

fn custodian() -> Identity {
    id(&[7, 7, 7])
}

fn stranger() -> Identity {
    id(&[6, 6, 6])
}

fn bank_with_custodian() -> Bank {
    Bank::new(vec![custodian()], id(&[9, 9, 9]))
}

#[test]
fn privilege_gating() {
    // Every privileged operation fails closed for a non-listed caller and
    // leaves pots and logs unchanged.
    let mut bank = bank_with_custodian();
    let s = stranger();
    assert!(!bank.add_to_silver_pot(&s, 10, 100));
    assert!(!bank.add_to_gold_pot(&s, 10, 100));
    assert!(!bank.reset_silver_pot(&s, 100));
    assert!(!bank.reset_gold_pot(&s, 100));
    assert!(!bank.add_to_high_score_pot(&s, 10, 100));
    assert!(!bank.reset_high_score_pot(&s, 100));
    let args = TransferArgs { to_principal: id(&[1]), to_subaccount: None, amount_e8s: 5 };
    let r = bank.finish_transfer(&s, &args, TransferEvent::Succeeded(1), 100);
    assert_eq!(r, Err(TransferError::NotAuthorized));
    assert_eq!(bank.get_silver_pot(), 0);
    assert_eq!(bank.get_gold_pot(), 0);
    assert_eq!(bank.get_high_score_pot(), 0);
    assert_eq!(bank.get_logs().len(), 0);
}

#[test]
fn pot_adds_and_resets() {
    let mut bank = bank_with_custodian();
    let c = custodian();
    assert!(bank.add_to_silver_pot(&c, 100, 10));
    assert!(bank.add_to_gold_pot(&c, 200, 11));
    assert!(bank.add_to_high_score_pot(&c, 300, 12));
    assert_eq!(bank.get_silver_pot(), 100);
    assert_eq!(bank.get_gold_pot(), 200);
    assert_eq!(bank.get_high_score_pot(), 300);
    assert_eq!(bank.get_total_pot(), 300);
    // Resets re-seed silver and gold to their fixed amounts, and zero the
    // high-score pot.
    assert!(bank.reset_silver_pot(&c, 13));
    assert!(bank.reset_gold_pot(&c, 14));
    assert!(bank.reset_high_score_pot(&c, 15));
    assert_eq!(bank.get_silver_pot(), 25_000_000);
    assert_eq!(bank.get_gold_pot(), 250_000_000);
    assert_eq!(bank.get_high_score_pot(), 0);
    assert_eq!(bank.get_total_pot(), 275_000_000);
    // Each of the six operations appended exactly one audit record.
    let logs = bank.get_logs();
    assert_eq!(logs.len(), 6);
    assert_eq!(logs[0].action, Action::AddSilver);
    assert_eq!(logs[1].action, Action::AddGold);
    assert_eq!(logs[2].action, Action::AddHighScorePot);
    assert_eq!(logs[3].action, Action::ResetSilver);
    assert_eq!(logs[3].amount_e8s, 25_000_000);
    assert_eq!(logs[4].action, Action::ResetGold);
    assert_eq!(logs[4].amount_e8s, 250_000_000);
    assert_eq!(logs[5].action, Action::ResetHighScorePot);
    assert_eq!(logs[5].amount_e8s, 0);
}

#[test]
fn custodian_transfer_outcomes() {
    let mut bank = bank_with_custodian();
    let c = custodian();
    let args = TransferArgs { to_principal: id(&[1]), to_subaccount: None, amount_e8s: 500 };
    let r = bank.finish_transfer(&c, &args, TransferEvent::Rejected("bad fee".to_string()), 50);
    assert_eq!(r, Err(TransferError::LedgerRejected("bad fee".to_string())));
    let r = bank.finish_transfer(&c, &args, TransferEvent::Failed("no reply".to_string()), 51);
    assert_eq!(r, Err(TransferError::CallFailed("no reply".to_string())));
    assert_eq!(bank.get_logs().len(), 0);
    let r = bank.finish_transfer(&c, &args, TransferEvent::Succeeded(321), 52);
    assert_eq!(r, Ok(321));
    let logs = bank.get_logs();
    assert_eq!(logs.len(), 1);
    assert_eq!(logs[0].action, Action::Transfer);
    assert_eq!(logs[0].amount_e8s, 500);
    assert_eq!(logs[0].block_index, Some(321));
}

#[test]
fn effective_subaccount_defaults_to_zeroes() {
    let args = TransferArgs { to_principal: id(&[1]), to_subaccount: None, amount_e8s: 1 };
    assert_eq!(args.effective_subaccount(), vec![0u8; 32]);
    let own = TransferArgs {
        to_principal: id(&[1]),
        to_subaccount: Some(vec![1u8; 32]),
        amount_e8s: 1,
    };
    assert_eq!(own.effective_subaccount(), vec![1u8; 32]);
}

#[test]
fn user_logs_filter_by_caller() {
    let mut bank = bank_with_custodian();
    let c = custodian();
    let u = stranger();
    assert!(bank.add_to_silver_pot(&c, 100, 10));
    let _ = bank.finish_withdraw(&u, 0, TransferEvent::Succeeded(2), 11);
    assert!(bank.add_to_gold_pot(&c, 50, 12));
    let for_c = bank.get_user_logs(&c);
    assert_eq!(for_c.len(), 2);
    assert_eq!(for_c[0].action, Action::AddSilver);
    assert_eq!(for_c[1].action, Action::AddGold);
    let for_u = bank.get_user_logs(&u);
    assert_eq!(for_u.len(), 1);
    assert_eq!(for_u[0].action, Action::Withdraw);
    assert_eq!(for_u[0].amount_e8s, 0);
}
