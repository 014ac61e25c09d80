//! The selector: simulating a transaction's fee yield against a read-only
//! view of the ledger, and picking the most profitable candidate.

use vstd::arithmetic::mul::lemma_mul_inequality;
use vstd::prelude::*;

use crate::account::Transaction;
use crate::account::transactions_view;
use crate::ledger::AccountSystem;
use crate::ledger::find_index;
use crate::model::balance_of;
use crate::model::best_transaction;
use crate::model::lemma_account_index;
use crate::model::profit_to;
use crate::model::select_from;
use crate::model::transaction_profit;
use crate::model::transfer_admissible;
use crate::model::transfer_profit;

verus! {

impl AccountSystem {
    /// The fee yield the transaction would bring if applied now. Every
    /// transfer is checked against the same baseline balances — effects of
    /// earlier transfers in the same transaction are not carried forward —
    /// and an unsatisfiable transfer contributes zero instead of failing.
    pub fn compute_transaction_profit(&self, transaction: &Transaction) -> (r: u128)
        ensures
            r as int == transaction_profit(self@.accounts, transaction@),
    {
        let ghost ts = transaction@;
        let n = transaction.transfers.len();
        let mut profit: u128 = 0;
        let mut k: usize = 0;
        while k < n
            invariant
                k <= n,
                n == transaction.transfers.len(),
                ts == transaction@,
                profit as int == profit_to(self@.accounts, ts, k as int),
                profit as int <= (k as int) * (u64::MAX as int),
            decreases n - k,
        {
            let t = &transaction.transfers[k];
            proof {
                assert(ts[k as int] == transaction.transfers@[k as int]@);
            }
            let mut contribution: u64 = 0;
            let sender_index = find_index(&self.accounts, &t.from);
            let recipient_index = find_index(&self.accounts, &t.to);
            if let Some(si) = sender_index {
                proof {
                    lemma_account_index(self@.accounts, ts[k as int].from, si as int);
                    assert(self@.accounts[si as int] == self.accounts@[si as int]@);
                }
                if let Some(ri) = recipient_index {
                    proof {
                        lemma_account_index(self@.accounts, ts[k as int].to, ri as int);
                    }
                    let bal = self.accounts[si].balance;
                    if bal as u128 >= t.amount as u128 + t.fee as u128 {
                        proof {
                            assert(balance_of(self@.accounts, ts[k as int].from) == bal as int);
                            assert(transfer_admissible(self@.accounts, ts[k as int]));
                        }
                        contribution = t.fee;
                    }
                }
            }
            proof {
                assert(contribution as int == transfer_profit(self@.accounts, ts[k as int]));
                lemma_mul_inequality(k as int + 1, 0x1_0000_0000_0000_0000, u64::MAX as int);
            }
            profit = profit + contribution as u128;
            k += 1;
        }
        profit
    }

    /// The candidate with the highest simulated profit, ties broken in
    /// favour of fewer transfers, earlier candidates winning otherwise. With
    /// no candidate that beats it, the empty transaction (zero transfers,
    /// zero profit) is returned.
    pub fn find_max_profit_transaction(&mut self, transactions: &[Transaction]) -> (r:
        Transaction)
        ensures
            *final(self) == *old(self),
            r@ == best_transaction(old(self)@.accounts, transactions_view(transactions@)),
    {
        let ghost cs = transactions_view(transactions@);
        let mut max_profit_transaction = Transaction { transfers: Vec::new() };
        let mut max_profit: u128 = 0;
        proof {
            assert(max_profit_transaction@ =~= Seq::<crate::account::TransferModel>::empty());
        }
        let n = transactions.len();
        let mut k: usize = 0;
        while k < n
            invariant
                k <= n,
                n == transactions@.len(),
                cs == transactions_view(transactions@),
                *self == *old(self),
                max_profit as int == transaction_profit(
                    self@.accounts,
                    max_profit_transaction@,
                ),
                select_from(self@.accounts, cs, k as int, max_profit_transaction@)
                    == best_transaction(self@.accounts, cs),
            decreases n - k,
        {
            proof {
                assert(cs[k as int] == transactions@[k as int]@);
            }
            let profit = self.compute_transaction_profit(&transactions[k]);
            if profit > max_profit {
                max_profit_transaction = transactions[k].clone();
                max_profit = profit;
            } else if profit == max_profit {
                if transactions[k].transfers.len() < max_profit_transaction.transfers.len() {
                    max_profit_transaction = transactions[k].clone();
                }
            }
            k += 1;
        }
        max_profit_transaction
    }
}

} // verus!
