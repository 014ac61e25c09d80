use account_ledger::Account;
use account_ledger::AccountSystem;
use account_ledger::Transaction;
use account_ledger::Transfer;

fn fixture() -> AccountSystem {
    let mut system = AccountSystem::new();
    let loaded = system.load_accounts(vec![
        Account { user: "A".to_string(), balance: 1 },
        Account { user: "B".to_string(), balance: 1000 },
        Account { user: "C".to_string(), balance: 0 },
        Account { user: "E".to_string(), balance: 13480 },
        Account { user: "D".to_string(), balance: 170 },
    ]);
    assert!(loaded);
    system
}

fn transfer(from: &str, to: &str, amount: u64, fee: u64) -> Transfer {
    Transfer { from: from.to_string(), to: to.to_string(), amount, fee }
}

#[test]
fn account_test_get_account() {
    let system = fixture();
    assert_eq!(system.snapshot().len(), 5);
}

#[test]
fn account_test_execute_transaction() {
    let mut system = fixture();
    let transaction = Transaction {
        transfers: vec![
            transfer("A", "B", 1, 0),
            transfer("B", "C", 90, 10),
            transfer("C", "E", 90, 0),
        ],
    };
    system.execute_transaction(&transaction).unwrap();
    let snapshot = system.snapshot();
    assert_eq!(snapshot[0].1, 0);
    assert_eq!(snapshot[1].1, 901);
    assert_eq!(snapshot[2].1, 0);
    assert_eq!(snapshot[3].1, 13570);
    assert_eq!(snapshot[4].1, 170);
    assert_eq!(system.system_balance(), 10);
}

#[test]
fn account_test_execute_transaction_insufficient_funds() {
    let mut system = fixture();
    let transaction = Transaction { transfers: vec![transfer("A", "B", 1000, 0)] };
    let result = system.execute_transaction(&transaction);
    assert_eq!(
        result.err().map(|e| e.message()),
        Some("Insufficient funds for transfer")
    );
}

#[test]
fn account_test_execute_transaction_sender_not_found() {
    let mut system = fixture();
    let transaction = Transaction { transfers: vec![transfer("F", "B", 1000, 0)] };
    let result = system.execute_transaction(&transaction);
    assert_eq!(result.err().map(|e| e.message()), Some("Sender account not found"));
}

#[test]
fn account_test_execute_transaction_recipient_not_found() {
    let mut system = fixture();
    let transaction = Transaction { transfers: vec![transfer("A", "F", 1000, 0)] };
    let result = system.execute_transaction(&transaction);
    assert_eq!(result.err().map(|e| e.message()), Some("Recipient account not found"));
}

#[test]
fn account_test_execute_transaction_multiple_errors() {
    let mut system = fixture();
    let transaction = Transaction {
        transfers: vec![transfer("A", "B", 1000, 0), transfer("B", "C", 1000, 0)],
    };
    let result = system.execute_transaction(&transaction);
    assert_eq!(
        result.err().map(|e| e.message()),
        Some("Insufficient funds for transfer")
    );
}

#[test]
fn main_test_get_account() {
    let system = fixture();
    assert_eq!(system.snapshot().len(), 5);
}

#[test]
fn main_test_execute_transaction() {
    let mut system = fixture();
    let transaction = Transaction {
        transfers: vec![
            transfer("A", "B", 1, 0),
            transfer("B", "C", 90, 10),
            transfer("C", "E", 90, 0),
        ],
    };
    system.execute_transaction(&transaction).unwrap();
    let snapshot = system.snapshot();
    assert_eq!(snapshot[0].1, 0);
    assert_eq!(snapshot[1].1, 901);
    assert_eq!(snapshot[2].1, 0);
    assert_eq!(snapshot[3].1, 13570);
    assert_eq!(snapshot[4].1, 170);
    assert_eq!(system.system_balance(), 10);
}

#[test]
fn main_test_execute_transaction_insufficient_funds() {
    let mut system = fixture();
    let transaction = Transaction { transfers: vec![transfer("A", "B", 1000, 0)] };
    let result = system.execute_transaction(&transaction);
    assert_eq!(
        result.err().map(|e| e.message()),
        Some("Insufficient funds for transfer")
    );
}

#[test]
fn main_test_execute_transaction_sender_not_found() {
    let mut system = fixture();
    let transaction = Transaction { transfers: vec![transfer("F", "B", 1000, 0)] };
    let result = system.execute_transaction(&transaction);
    assert_eq!(result.err().map(|e| e.message()), Some("Sender account not found"));
}

#[test]
fn main_test_execute_transaction_recipient_not_found() {
    let mut system = fixture();
    let transaction = Transaction { transfers: vec![transfer("A", "F", 1000, 0)] };
    let result = system.execute_transaction(&transaction);
    assert_eq!(result.err().map(|e| e.message()), Some("Recipient account not found"));
}

#[test]
fn main_test_execute_transaction_multiple_errors() {
    let mut system = fixture();
    let transaction = Transaction {
        transfers: vec![transfer("A", "B", 1000, 0), transfer("B", "C", 1000, 0)],
    };
    let result = system.execute_transaction(&transaction);
    assert_eq!(
        result.err().map(|e| e.message()),
        Some("Insufficient funds for transfer")
    );
}
