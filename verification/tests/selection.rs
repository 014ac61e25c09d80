use account_ledger::Account;
use account_ledger::AccountSystem;
use account_ledger::Transaction;
use account_ledger::Transfer;

fn fixture() -> AccountSystem {
    let mut system = AccountSystem::new();
    let loaded = system.load_accounts(vec![
        Account { user: "A".to_string(), balance: 1 },
        Account { user: "B".to_string(), balance: 1000 },
        Account { user: "C".to_string(), balance: 0 },
        Account { user: "E".to_string(), balance: 13480 },
        Account { user: "D".to_string(), balance: 170 },
    ]);
    assert!(loaded);
    system
}

fn transfer(from: &str, to: &str, amount: u64, fee: u64) -> Transfer {
    Transfer { from: from.to_string(), to: to.to_string(), amount, fee }
}

#[test]
fn test_compute_transaction_profit() {
    let system = fixture();
    let transaction = Transaction {
        transfers: vec![
            transfer("A", "B", 1, 0),
            transfer("B", "C", 90, 10),
            transfer("C", "E", 90, 0),
        ],
    };
    assert_eq!(system.compute_transaction_profit(&transaction), 10);
}

#[test]
fn test_compute_transaction_profit_insufficient_funds() {
    let system = fixture();
    let transaction = Transaction { transfers: vec![transfer("A", "B", 1000, 0)] };
    assert_eq!(system.compute_transaction_profit(&transaction), 0);
}

#[test]
fn test_find_max_profit_transaction() {
    let mut system = fixture();
    let transactions = vec![
        Transaction {
            transfers: vec![
                transfer("A", "B", 1, 0),
                transfer("B", "C", 90, 10),
                transfer("C", "E", 90, 0),
                transfer("E", "D", 90, 100),
            ],
        },
        Transaction {
            transfers: vec![transfer("A", "B", 1, 0), transfer("B", "C", 90, 10)],
        },
        Transaction {
            transfers: vec![
                transfer("A", "B", 1, 0),
                transfer("B", "C", 90, 10),
                transfer("C", "E", 90, 0),
            ],
        },
    ];
    let max_profit_transaction = system.find_max_profit_transaction(&transactions);
    assert_eq!(max_profit_transaction.transfers.len(), 4);
}
