//! The ledger itself: authoritative account state, lookup, and atomic
//! application of a transaction's transfers.

use vstd::arithmetic::mul::lemma_mul_inequality;
use vstd::prelude::*;

use crate::account::Account;
use crate::account::AccountModel;
use crate::account::Transaction;
use crate::account::TransferError;
use crate::account::accounts_view;
use crate::model::LedgerModel;
use crate::model::account_index;
use crate::model::apply_outcome;
use crate::model::apply_transfer;
use crate::model::balances_nonneg;
use crate::model::has_account;
use crate::model::is_first_match;
use crate::model::lemma_account_index;
use crate::model::lemma_element_le_sum;
use crate::model::lemma_sum_update;
use crate::model::run_transfers;
use crate::model::sum_balances;
use crate::model::sum_to;
use crate::model::wealth;

verus! {

/// The mutable set of accounts plus the accumulator of collected fees.
pub struct AccountSystem {
    pub accounts: Vec<Account>,
    pub system_balance: u64,
}

impl View for AccountSystem {
    type V = LedgerModel;

    open spec fn view(&self) -> LedgerModel {
        LedgerModel {
            accounts: accounts_view(self.accounts@),
            system_balance: self.system_balance as int,
        }
    }
}

/// Mapping accounts to their models commutes with updating one entry.
proof fn lemma_accounts_view_update(accounts: Seq<Account>, i: int, a: Account)
    requires
        0 <= i < accounts.len(),
    ensures
        accounts_view(accounts.update(i, a)) =~= accounts_view(accounts).update(i, a@),
{
}

/// Balances drawn from machine accounts are non-negative.
proof fn lemma_view_balances_nonneg(accounts: Seq<Account>)
    ensures
        balances_nonneg(accounts_view(accounts)),
{
    assert forall|j: int| 0 <= j < accounts_view(accounts).len() implies #[trigger]
        accounts_view(accounts)[j].balance >= 0 by {
        assert(accounts_view(accounts)[j] == accounts[j]@);
    }
}

/// The first account holding `user`, scanning in listing order.
pub(crate) fn find_index(accounts: &Vec<Account>, user: &String) -> (r: Option<usize>)
    ensures
        match r {
            Some(i) => is_first_match(accounts_view(accounts@), user@, i as int),
            None => !has_account(accounts_view(accounts@), user@),
        },
{
    let n = accounts.len();
    let mut i: usize = 0;
    while i < n
        invariant
            i <= n,
            n == accounts.len(),
            forall|j: int| 0 <= j < i ==> #[trigger] accounts_view(accounts@)[j].user != user@,
        decreases n - i,
    {
        if accounts[i].user == *user {
            proof {
                assert(accounts_view(accounts@)[i as int] == accounts@[i as int]@);
            }
            return Some(i);
        }
        proof {
            assert(accounts_view(accounts@)[i as int] == accounts@[i as int]@);
        }
        i += 1;
    }
    None
}

impl AccountSystem {
    /// A representable ledger: the total wealth fits the balance type, so no
    /// credit can overflow.
    pub open spec fn wf(self) -> bool {
        wealth(self@) <= u64::MAX
    }

    /// An empty ledger: no accounts, no collected fees.
    pub fn new() -> (r: Self)
        ensures
            r@ == (LedgerModel { accounts: Seq::<AccountModel>::empty(), system_balance: 0 }),
            r.wf(),
    {
        let r = AccountSystem { accounts: Vec::new(), system_balance: 0 };
        proof {
            assert(accounts_view(r.accounts@) =~= Seq::<AccountModel>::empty());
        }
        r
    }

    /// Replaces the account list with `accounts`, keeping the fees collected
    /// so far. Returns `false`, leaving the ledger untouched, exactly when
    /// the combined wealth would not fit the balance type.
    pub fn load_accounts(&mut self, accounts: Vec<Account>) -> (r: bool)
        ensures
            r == (sum_balances(accounts_view(accounts@)) + old(self)@.system_balance
                <= u64::MAX),
            r ==> final(self)@ == (LedgerModel {
                accounts: accounts_view(accounts@),
                system_balance: old(self)@.system_balance,
            }) && final(self).wf(),
            !r ==> *final(self) == *old(self),
    {
        let ghost av = accounts_view(accounts@);
        let n = accounts.len();
        let mut total: u128 = 0;
        let mut k: usize = 0;
        while k < n
            invariant
                k <= n,
                n == accounts.len(),
                av == accounts_view(accounts@),
                total as int == sum_to(av, k as int),
                total as int <= (k as int) * (u64::MAX as int),
            decreases n - k,
        {
            let b = accounts[k].balance;
            proof {
                assert(av[k as int] == accounts@[k as int]@);
                lemma_mul_inequality(
                    k as int + 1,
                    0x1_0000_0000_0000_0000,
                    u64::MAX as int,
                );
            }
            total = total + b as u128;
            k += 1;
        }
        if total <= (u64::MAX - self.system_balance) as u128 {
            self.accounts = accounts;
            true
        } else {
            false
        }
    }

    /// The account that `user` resolves to: the first match in listing
    /// order, or nothing when no account carries that identifier.
    pub fn lookup(&self, user: &String) -> (r: Option<&Account>)
        ensures
            match r {
                Some(a) => has_account(self@.accounts, user@) && a@ == self@.accounts[
                    account_index(self@.accounts, user@)
                ],
                None => !has_account(self@.accounts, user@),
            },
    {
        match find_index(&self.accounts, user) {
            Some(i) => {
                proof {
                    lemma_account_index(self@.accounts, user@, i as int);
                    assert(self@.accounts[i as int] == self.accounts@[i as int]@);
                }
                Some(&self.accounts[i])
            },
            None => None,
        }
    }

    /// The fees collected across all successfully applied transfers.
    pub fn system_balance(&self) -> (r: u64)
        ensures
            r as int == self@.system_balance,
    {
        self.system_balance
    }

    /// The identifier and balance of every account, in listing order.
    pub fn snapshot(&self) -> (r: Vec<(String, u64)>)
        ensures
            r@.len() == self@.accounts.len(),
            forall|i: int| 0 <= i < r@.len() ==> (#[trigger] r@[i]).0@ == self@.accounts[i].user
                && r@[i].1 as int == self@.accounts[i].balance,
    {
        let n = self.accounts.len();
        let mut r: Vec<(String, u64)> = Vec::new();
        let mut i: usize = 0;
        while i < n
            invariant
                i <= n,
                n == self.accounts.len(),
                r@.len() == i,
                forall|j: int| 0 <= j < i ==> (#[trigger] r@[j]).0@ == self@.accounts[j].user
                    && r@[j].1 as int == self@.accounts[j].balance,
            decreases n - i,
        {
            let user = self.accounts[i].user.clone();
            let balance = self.accounts[i].balance;
            proof {
                assert(self@.accounts[i as int] == self.accounts@[i as int]@);
            }
            r.push((user, balance));
            i += 1;
        }
        r
    }

    /// Applies the transaction's transfers in order. The first transfer whose
    /// sender is unknown, whose recipient is unknown, or whose sender cannot
    /// cover amount plus fee stops the run with the corresponding error;
    /// transfers applied before it stay applied. When every transfer goes
    /// through, the call succeeds.
    pub fn execute_transaction(&mut self, transaction: &Transaction) -> (r: Result<
        (),
        TransferError,
    >)
        requires
            old(self).wf(),
        ensures
            final(self).wf(),
            ({
                let (m2, e) = apply_outcome(old(self)@, transaction@);
                &&& final(self)@ == m2
                &&& match r {
                    Ok(_) => e is None,
                    Err(err) => e == Some(err@),
                }
            }),
    {
        let ghost m0 = self@;
        let ghost ts = transaction@;
        let n = transaction.transfers.len();
        proof {
            assert(ts.len() == n as int);
        }
        let mut k: usize = 0;
        while k < n
            invariant
                k <= n,
                n == transaction.transfers.len(),
                ts == transaction@,
                m0 == old(self)@,
                self.wf(),
                run_transfers(m0, ts, 0) == run_transfers(self@, ts, k as int),
            decreases n - k,
        {
            let ghost m = self@;
            let ghost va0 = self.accounts@;
            let t = &transaction.transfers[k];
            proof {
                assert(ts[k as int] == transaction.transfers@[k as int]@);
            }
            let sender_index = find_index(&self.accounts, &t.from);
            let si = match sender_index {
                Some(si) => si,
                None => {
                    return Err(TransferError::SenderNotFound { index: k, user: t.from.clone() });
                },
            };
            let recipient_index = find_index(&self.accounts, &t.to);
            let ri = match recipient_index {
                Some(ri) => ri,
                None => {
                    proof {
                        lemma_account_index(m.accounts, ts[k as int].from, si as int);
                    }
                    return Err(TransferError::RecipientNotFound {
                        index: k,
                        user: t.to.clone(),
                    });
                },
            };
            proof {
                lemma_account_index(m.accounts, ts[k as int].from, si as int);
                lemma_account_index(m.accounts, ts[k as int].to, ri as int);
                assert(m.accounts[si as int] == va0[si as int]@);
                assert(m.accounts[ri as int] == va0[ri as int]@);
            }
            let amount = t.amount;
            let fee = t.fee;
            let bal = self.accounts[si].balance;
            if (bal as u128) < amount as u128 + fee as u128 {
                return Err(TransferError::InsufficientFunds { index: k, user: t.from.clone() });
            }
            // The transfer is admissible: debit the sender, credit the
            // recipient, collect the fee.
            let total = amount + fee;
            let debited = bal - total;
            self.accounts[si].balance = debited;
            let ghost va1 = self.accounts@;
            let ghost sender_model = AccountModel {
                user: m.accounts[si as int].user,
                balance: m.accounts[si as int].balance - amount - fee,
            };
            proof {
                lemma_accounts_view_update(va0, si as int, va1[si as int]);
                assert(accounts_view(va1) =~= m.accounts.update(si as int, sender_model));
                // The remaining credits cannot overflow: the wealth bound
                // caps every balance and the fee accumulator.
                lemma_view_balances_nonneg(va0);
                lemma_view_balances_nonneg(va1);
                lemma_element_le_sum(m.accounts, si as int);
                lemma_sum_update(m.accounts, si as int, sender_model);
                lemma_element_le_sum(accounts_view(va1), ri as int);
            }
            let rb = self.accounts[ri].balance;
            self.accounts[ri].balance = rb + amount;
            let ghost va2 = self.accounts@;
            let fees = self.system_balance;
            proof {
                lemma_accounts_view_update(va1, ri as int, va2[ri as int]);
            }
            self.system_balance = fees + fee;
            proof {
                let m1 = apply_transfer(m, ts[k as int]);
                assert(self@.accounts =~= m1.accounts);
                assert(self@ =~= m1);
                lemma_sum_update(
                    m.accounts.update(si as int, sender_model),
                    ri as int,
                    m1.accounts[ri as int],
                );
                assert(wealth(self@) == wealth(m));
            }
            k += 1;
        }
        Ok(())
    }
}

} // verus!
