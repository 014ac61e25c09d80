//! The value types of the ledger: accounts, transfers, transactions, and the
//! errors that applying a transaction can raise.

use vstd::prelude::*;

verus! {

/// A single directed movement of funds: `amount` minor units move from the
/// account named `from` to the account named `to`, and `fee` minor units are
/// charged to `from` on top of the amount.
pub struct Transfer {
    pub from: String,
    pub to: String,
    pub amount: u64,
    pub fee: u64,
}

/// The mathematical value of a [`Transfer`]: identifiers as character
/// sequences, amounts as unbounded integers.
#[verifier::ext_equal]
pub struct TransferModel {
    pub from: Seq<char>,
    pub to: Seq<char>,
    pub amount: int,
    pub fee: int,
}

impl View for Transfer {
    type V = TransferModel;

    open spec fn view(&self) -> TransferModel {
        TransferModel {
            from: self.from@,
            to: self.to@,
            amount: self.amount as int,
            fee: self.fee as int,
        }
    }
}

impl Clone for Transfer {
    fn clone(&self) -> (r: Self)
        ensures
            r@ == self@,
    {
        Transfer {
            from: self.from.clone(),
            to: self.to.clone(),
            amount: self.amount,
            fee: self.fee,
        }
    }
}

/// An ordered batch of transfers, applied as a unit.
pub struct Transaction {
    pub transfers: Vec<Transfer>,
}

/// The mathematical value of a sequence of transfers.
pub open spec fn transfers_view(ts: Seq<Transfer>) -> Seq<TransferModel> {
    ts.map_values(|t: Transfer| t@)
}

/// The mathematical value of a sequence of accounts.
pub open spec fn accounts_view(accounts: Seq<Account>) -> Seq<AccountModel> {
    accounts.map_values(|a: Account| a@)
}

/// The mathematical value of a sequence of transactions.
pub open spec fn transactions_view(txs: Seq<Transaction>) -> Seq<Seq<TransferModel>> {
    txs.map_values(|t: Transaction| t@)
}

impl View for Transaction {
    type V = Seq<TransferModel>;

    open spec fn view(&self) -> Seq<TransferModel> {
        transfers_view(self.transfers@)
    }
}

impl Clone for Transaction {
    fn clone(&self) -> (r: Self)
        ensures
            r@ == self@,
    {
        let mut transfers: Vec<Transfer> = Vec::new();
        let n = self.transfers.len();
        let mut i: usize = 0;
        while i < n
            invariant
                i <= n,
                n == self.transfers.len(),
                transfers@.len() == i,
                forall|j: int| 0 <= j < i ==> transfers@[j]@ == self.transfers@[j]@,
            decreases n - i,
        {
            let t = self.transfers[i].clone();
            transfers.push(t);
            i += 1;
        }
        proof {
            assert(transfers_view(transfers@) =~= transfers_view(self.transfers@));
        }
        Transaction { transfers }
    }
}

/// A named account holding a balance in minor units.
pub struct Account {
    pub user: String,
    pub balance: u64,
}

/// The mathematical value of an [`Account`].
#[verifier::ext_equal]
pub struct AccountModel {
    pub user: Seq<char>,
    pub balance: int,
}

impl View for Account {
    type V = AccountModel;

    open spec fn view(&self) -> AccountModel {
        AccountModel { user: self.user@, balance: self.balance as int }
    }
}

impl Clone for Account {
    fn clone(&self) -> (r: Self)
        ensures
            r@ == self@,
    {
        Account { user: self.user.clone(), balance: self.balance }
    }
}

/// Why a transfer inside a transaction was refused: `index` is the position
/// of the failing transfer inside the transaction, `user` the identifier the
/// failure is about (the sender for `SenderNotFound` and `InsufficientFunds`,
/// the recipient for `RecipientNotFound`).
#[derive(Debug, PartialEq, Eq)]
pub enum TransferError {
    SenderNotFound { index: usize, user: String },
    RecipientNotFound { index: usize, user: String },
    InsufficientFunds { index: usize, user: String },
}

/// The mathematical value of a [`TransferError`].
#[verifier::ext_equal]
pub enum TransferErrorModel {
    SenderNotFound { index: int, user: Seq<char> },
    RecipientNotFound { index: int, user: Seq<char> },
    InsufficientFunds { index: int, user: Seq<char> },
}

impl View for TransferError {
    type V = TransferErrorModel;

    open spec fn view(&self) -> TransferErrorModel {
        match self {
            TransferError::SenderNotFound { index, user } => {
                TransferErrorModel::SenderNotFound { index: *index as int, user: user@ }
            },
            TransferError::RecipientNotFound { index, user } => {
                TransferErrorModel::RecipientNotFound { index: *index as int, user: user@ }
            },
            TransferError::InsufficientFunds { index, user } => {
                TransferErrorModel::InsufficientFunds { index: *index as int, user: user@ }
            },
        }
    }
}

impl TransferErrorModel {
    /// The position of the failing transfer inside its transaction.
    pub open spec fn index(self) -> int {
        match self {
            TransferErrorModel::SenderNotFound { index, .. } => index,
            TransferErrorModel::RecipientNotFound { index, .. } => index,
            TransferErrorModel::InsufficientFunds { index, .. } => index,
        }
    }
}

/// The human-readable description of each error variant.
pub open spec fn error_message(e: TransferErrorModel) -> Seq<char> {
    match e {
        TransferErrorModel::SenderNotFound { .. } => "Sender account not found"@,
        TransferErrorModel::RecipientNotFound { .. } => "Recipient account not found"@,
        TransferErrorModel::InsufficientFunds { .. } => "Insufficient funds for transfer"@,
    }
}

impl TransferError {
    /// A short description of the failure, suitable for logging.
    pub fn message(&self) -> (r: &'static str)
        ensures
            r@ == error_message(self@),
    {
        match self {
            TransferError::SenderNotFound { .. } => "Sender account not found",
            TransferError::RecipientNotFound { .. } => "Recipient account not found",
            TransferError::InsufficientFunds { .. } => "Insufficient funds for transfer",
        }
    }
}

} // verus!
