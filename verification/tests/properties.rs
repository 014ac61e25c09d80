use account_ledger::Account;
use account_ledger::AccountSystem;
use account_ledger::Transaction;
use account_ledger::Transfer;
use account_ledger::TransferError;

fn fixture() -> AccountSystem {
    let mut system = AccountSystem::new();
    let loaded = system.load_accounts(vec![
        Account { user: "A".to_string(), balance: 1 },
        Account { user: "B".to_string(), balance: 1000 },
        Account { user: "C".to_string(), balance: 0 },
        Account { user: "E".to_string(), balance: 13480 },
        Account { user: "D".to_string(), balance: 170 },
    ]);
    assert!(loaded);
    system
}

fn transfer(from: &str, to: &str, amount: u64, fee: u64) -> Transfer {
    Transfer { from: from.to_string(), to: to.to_string(), amount, fee }
}

fn total_wealth(system: &AccountSystem) -> u64 {
    system.snapshot().iter().map(|(_, b)| *b).sum::<u64>() + system.system_balance()
}

#[test]
fn valid_transfer_moves_exact_amounts() {
    let mut system = fixture();
    let before = total_wealth(&system);
    let transaction = Transaction { transfers: vec![transfer("B", "C", 90, 10)] };
    system.execute_transaction(&transaction).unwrap();
    let snapshot = system.snapshot();
    assert_eq!(snapshot[1].1, 900);
    assert_eq!(snapshot[2].1, 90);
    assert_eq!(system.system_balance(), 10);
    assert_eq!(total_wealth(&system), before);
}

#[test]
fn wealth_conserved_even_when_transaction_fails() {
    let mut system = fixture();
    let before = total_wealth(&system);
    let transaction = Transaction {
        transfers: vec![transfer("B", "C", 90, 10), transfer("A", "B", 5000, 0)],
    };
    assert!(system.execute_transaction(&transaction).is_err());
    assert_eq!(total_wealth(&system), before);
}

#[test]
fn unknown_sender_keeps_earlier_transfers_applied() {
    let mut system = fixture();
    let transaction = Transaction {
        transfers: vec![transfer("B", "C", 90, 10), transfer("F", "A", 1, 0)],
    };
    let result = system.execute_transaction(&transaction);
    assert_eq!(
        result,
        Err(TransferError::SenderNotFound { index: 1, user: "F".to_string() })
    );
    let snapshot = system.snapshot();
    assert_eq!(snapshot[1].1, 900);
    assert_eq!(snapshot[2].1, 90);
    assert_eq!(snapshot[0].1, 1);
    assert_eq!(system.system_balance(), 10);
}

#[test]
fn insufficient_funds_reported_at_failing_transfer() {
    let mut system = fixture();
    let transaction = Transaction {
        transfers: vec![transfer("A", "B", 1, 0), transfer("A", "C", 1, 0)],
    };
    let result = system.execute_transaction(&transaction);
    assert_eq!(
        result,
        Err(TransferError::InsufficientFunds { index: 1, user: "A".to_string() })
    );
    let snapshot = system.snapshot();
    assert_eq!(snapshot[0].1, 0);
    assert_eq!(snapshot[1].1, 1001);
}

#[test]
fn recipient_not_found_reports_recipient() {
    let mut system = fixture();
    let transaction = Transaction { transfers: vec![transfer("A", "Z", 1, 0)] };
    let result = system.execute_transaction(&transaction);
    assert_eq!(
        result,
        Err(TransferError::RecipientNotFound { index: 0, user: "Z".to_string() })
    );
}

#[test]
fn self_transfer_nets_to_the_fee() {
    let mut system = fixture();
    let transaction = Transaction { transfers: vec![transfer("B", "B", 90, 10)] };
    system.execute_transaction(&transaction).unwrap();
    let snapshot = system.snapshot();
    assert_eq!(snapshot[1].1, 990);
    assert_eq!(system.system_balance(), 10);
}

#[test]
fn fees_accumulate_across_transactions() {
    let mut system = fixture();
    let transaction = Transaction { transfers: vec![transfer("B", "C", 90, 10)] };
    system.execute_transaction(&transaction).unwrap();
    system.execute_transaction(&transaction).unwrap();
    assert_eq!(system.system_balance(), 20);
}

#[test]
fn simulate_profit_zero_for_unknown_sender() {
    let system = fixture();
    let transaction = Transaction { transfers: vec![transfer("F", "A", 1, 0)] };
    assert_eq!(system.compute_transaction_profit(&transaction), 0);
}

#[test]
fn simulate_profit_checks_each_transfer_against_baseline() {
    let system = fixture();
    // Against the baseline, C cannot cover the second transfer even though
    // the first would fund it during a real application.
    let transaction = Transaction {
        transfers: vec![transfer("B", "C", 90, 10), transfer("C", "A", 90, 5)],
    };
    assert_eq!(system.compute_transaction_profit(&transaction), 10);
}

#[test]
fn select_best_over_no_candidates_is_empty() {
    let mut system = fixture();
    let best = system.find_max_profit_transaction(&[]);
    assert_eq!(best.transfers.len(), 0);
}

#[test]
fn select_best_equal_profit_prefers_fewer_transfers() {
    let mut system = fixture();
    let transactions = vec![
        Transaction {
            transfers: vec![transfer("B", "C", 90, 10), transfer("A", "B", 1, 0)],
        },
        Transaction { transfers: vec![transfer("B", "C", 90, 10)] },
    ];
    let best = system.find_max_profit_transaction(&transactions);
    assert_eq!(best.transfers.len(), 1);
    assert_eq!(best.transfers[0].from, "B");
}

#[test]
fn select_best_zero_profit_candidates_yield_empty() {
    let mut system = fixture();
    let transactions = vec![Transaction { transfers: vec![transfer("A", "B", 1, 0)] }];
    let best = system.find_max_profit_transaction(&transactions);
    assert_eq!(best.transfers.len(), 0);
}

#[test]
fn lookup_resolves_to_first_match() {
    let mut system = AccountSystem::new();
    let loaded = system.load_accounts(vec![
        Account { user: "X".to_string(), balance: 5 },
        Account { user: "X".to_string(), balance: 7 },
    ]);
    assert!(loaded);
    let account = system.lookup(&"X".to_string()).unwrap();
    assert_eq!(account.balance, 5);
    assert!(system.lookup(&"Y".to_string()).is_none());
}

#[test]
fn load_rejects_unrepresentable_total_wealth() {
    let mut system = AccountSystem::new();
    let loaded = system.load_accounts(vec![
        Account { user: "A".to_string(), balance: u64::MAX },
        Account { user: "B".to_string(), balance: 1 },
    ]);
    assert!(!loaded);
    assert_eq!(system.snapshot().len(), 0);
    let loaded_again = system.load_accounts(vec![
        Account { user: "A".to_string(), balance: u64::MAX },
    ]);
    assert!(loaded_again);
    assert_eq!(system.snapshot()[0].1, u64::MAX);
}
