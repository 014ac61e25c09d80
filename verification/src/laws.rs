//! Ledger-wide properties, stated and proved once and for all: what one
//! admissible transfer does, conservation of wealth, how a failing
//! transaction leaves the ledger, when simulation yields nothing, and how
//! selection breaks ties.

use vstd::prelude::*;

use crate::account::AccountModel;
use crate::account::TransferErrorModel;
use crate::account::TransferModel;
use crate::model::LedgerModel;
use crate::model::account_index;
use crate::model::apply_outcome;
use crate::model::apply_transfer;
use crate::model::balance_of;
use crate::model::best_transaction;
use crate::model::better_candidate;
use crate::model::has_account;
use crate::model::lemma_first_match_unique;
use crate::model::lemma_has_account_index;
use crate::model::lemma_same_users_same_lookup;
use crate::model::lemma_sum_update;
use crate::model::profit_to;
use crate::model::run_transfers;
use crate::model::select_from;
use crate::model::transaction_profit;
use crate::model::transfer_admissible;
use crate::model::transfer_error_at;
use crate::model::wealth;

verus! {

/// One admissible transfer debits the sender by amount plus fee, credits the
/// recipient by the amount, credits the system balance by the fee, touches
/// no other account, and conserves total wealth. A self-transfer nets to the
/// fee alone, since the debit happens first.
pub proof fn lemma_transfer_effect(m: LedgerModel, t: TransferModel)
    requires
        transfer_admissible(m.accounts, t),
    ensures
        ({
            let m2 = apply_transfer(m, t);
            let si = account_index(m.accounts, t.from);
            let ri = account_index(m.accounts, t.to);
            &&& m2.accounts.len() == m.accounts.len()
            &&& (forall|j: int| 0 <= j < m.accounts.len() ==> #[trigger] m2.accounts[j].user
                == m.accounts[j].user)
            &&& m2.system_balance == m.system_balance + t.fee
            &&& (t.from != t.to ==> si != ri
                && m2.accounts[si].balance == m.accounts[si].balance - t.amount - t.fee
                && m2.accounts[ri].balance == m.accounts[ri].balance + t.amount)
            &&& (t.from == t.to ==> si == ri
                && m2.accounts[si].balance == m.accounts[si].balance - t.fee)
            &&& (forall|j: int| 0 <= j < m.accounts.len() && j != si && j != ri
                ==> #[trigger] m2.accounts[j] == m.accounts[j])
            &&& wealth(m2) == wealth(m)
        }),
{
    lemma_has_account_index(m.accounts, t.from);
    lemma_has_account_index(m.accounts, t.to);
    let si = account_index(m.accounts, t.from);
    let ri = account_index(m.accounts, t.to);
    if t.from == t.to {
        lemma_first_match_unique(m.accounts, t.from, si, ri);
    }
    let sender = m.accounts[si];
    let sender_model = AccountModel {
        user: sender.user,
        balance: sender.balance - t.amount - t.fee,
    };
    let debited = m.accounts.update(si, sender_model);
    let recipient = debited[ri];
    lemma_sum_update(m.accounts, si, sender_model);
    lemma_sum_update(
        debited,
        ri,
        AccountModel { user: recipient.user, balance: recipient.balance + t.amount },
    );
}

proof fn lemma_run_conserves_wealth(m: LedgerModel, ts: Seq<TransferModel>, i: int)
    ensures
        wealth(run_transfers(m, ts, i).0) == wealth(m),
    decreases ts.len() - i,
{
    if 0 <= i < ts.len() && transfer_admissible(m.accounts, ts[i]) {
        lemma_transfer_effect(m, ts[i]);
        lemma_run_conserves_wealth(apply_transfer(m, ts[i]), ts, i + 1);
    }
}

/// Applying a transaction never creates or destroys value: all account
/// balances plus the system balance sum to the same total afterwards,
/// whether the transaction succeeded or stopped at a failing transfer.
pub proof fn lemma_wealth_conserved(m: LedgerModel, ts: Seq<TransferModel>)
    ensures
        wealth(apply_outcome(m, ts).0) == wealth(m),
{
    lemma_run_conserves_wealth(m, ts, 0);
}

/// A transaction of one admissible transfer between two distinct accounts
/// succeeds: the sender's balance drops by exactly amount plus fee, the
/// recipient's rises by exactly the amount, the system balance rises by
/// exactly the fee, and total wealth is unchanged.
pub proof fn lemma_single_transfer_outcome(m: LedgerModel, t: TransferModel)
    requires
        transfer_admissible(m.accounts, t),
        t.from != t.to,
    ensures
        apply_outcome(m, seq![t]).1 is None,
        ({
            let m2 = apply_outcome(m, seq![t]).0;
            let si = account_index(m.accounts, t.from);
            let ri = account_index(m.accounts, t.to);
            &&& m2.accounts[si].balance == m.accounts[si].balance - t.amount - t.fee
            &&& m2.accounts[ri].balance == m.accounts[ri].balance + t.amount
            &&& m2.system_balance == m.system_balance + t.fee
            &&& wealth(m2) == wealth(m)
        }),
{
    lemma_transfer_effect(m, t);
    assert(seq![t][0] == t);
    assert(run_transfers(apply_transfer(m, t), seq![t], 1) == (
        apply_transfer(m, t),
        None::<TransferErrorModel>,
    ));
}

proof fn lemma_run_preserves_users(m: LedgerModel, ts: Seq<TransferModel>, i: int)
    ensures
        run_transfers(m, ts, i).0.accounts.len() == m.accounts.len(),
        forall|j: int| 0 <= j < m.accounts.len() ==> #[trigger] run_transfers(
            m,
            ts,
            i,
        ).0.accounts[j].user == m.accounts[j].user,
    decreases ts.len() - i,
{
    if 0 <= i < ts.len() && transfer_admissible(m.accounts, ts[i]) {
        lemma_transfer_effect(m, ts[i]);
        lemma_run_preserves_users(apply_transfer(m, ts[i]), ts, i + 1);
    }
}

proof fn lemma_run_failure(m: LedgerModel, ts: Seq<TransferModel>, i: int)
    requires
        0 <= i <= ts.len(),
    ensures
        ({
            let (m2, e) = run_transfers(m, ts, i);
            match e {
                Some(err) => {
                    let k = err.index();
                    &&& i <= k < ts.len()
                    &&& run_transfers(m, ts.take(k), i) == (m2, None::<TransferErrorModel>)
                    &&& !transfer_admissible(m2.accounts, ts[k])
                    &&& err == transfer_error_at(m2.accounts, ts[k], k)
                },
                None => true,
            }
        }),
    decreases ts.len() - i,
{
    if i == ts.len() {
    } else if !transfer_admissible(m.accounts, ts[i]) {
        assert(ts.take(i).len() == i);
    } else {
        let m1 = apply_transfer(m, ts[i]);
        lemma_run_failure(m1, ts, i + 1);
        let (m2, e) = run_transfers(m1, ts, i + 1);
        if e is Some {
            let k = e->Some_0.index();
            assert(ts.take(k)[i] == ts[i]);
        }
    }
}

/// When applying a transaction fails, the error names the first transfer
/// that could not go through: the transfers before it were applied and stay
/// applied — the ledger afterwards is exactly what they left behind — and
/// the failing condition holds in that ledger.
pub proof fn lemma_failure_is_first(m: LedgerModel, ts: Seq<TransferModel>)
    ensures
        ({
            let (m2, e) = apply_outcome(m, ts);
            match e {
                Some(err) => {
                    let k = err.index();
                    &&& 0 <= k < ts.len()
                    &&& run_transfers(m, ts.take(k), 0) == (m2, None::<TransferErrorModel>)
                    &&& !transfer_admissible(m2.accounts, ts[k])
                    &&& err == transfer_error_at(m2.accounts, ts[k], k)
                },
                None => true,
            }
        }),
{
    lemma_run_failure(m, ts, 0);
}

proof fn lemma_run_prefix(m: LedgerModel, ts: Seq<TransferModel>, k: int, i: int)
    requires
        0 <= i <= k <= ts.len(),
        run_transfers(m, ts.take(k), i).1 is None,
    ensures
        run_transfers(m, ts, i) == run_transfers(run_transfers(m, ts.take(k), i).0, ts, k),
    decreases k - i,
{
    if i == k {
        assert(run_transfers(m, ts.take(k), i) == (m, None::<TransferErrorModel>));
    } else {
        assert(ts.take(k)[i] == ts[i]);
        lemma_run_prefix(apply_transfer(m, ts[i]), ts, k, i + 1);
    }
}

/// When the transfers before position `k` go through but the sender of the
/// transfer at `k` is unknown, applying the transaction returns
/// `SenderNotFound` for position `k`, and the ledger is left exactly as the
/// first `k` transfers put it.
pub proof fn lemma_unknown_sender_outcome(m: LedgerModel, ts: Seq<TransferModel>, k: int)
    requires
        0 <= k < ts.len(),
        run_transfers(m, ts.take(k), 0).1 is None,
        !has_account(m.accounts, ts[k].from),
    ensures
        apply_outcome(m, ts) == (
            run_transfers(m, ts.take(k), 0).0,
            Some(TransferErrorModel::SenderNotFound { index: k, user: ts[k].from }),
        ),
{
    lemma_run_prefix(m, ts, k, 0);
    let mk = run_transfers(m, ts.take(k), 0).0;
    lemma_run_preserves_users(m, ts.take(k), 0);
    lemma_same_users_same_lookup(m.accounts, mk.accounts, ts[k].from);
}

/// When the transfers before position `k` go through, both parties of the
/// transfer at `k` exist, but the sender's balance at that point no longer
/// covers amount plus fee, applying the transaction returns
/// `InsufficientFunds` for position `k`, and the ledger is left exactly as
/// the first `k` transfers put it.
pub proof fn lemma_insufficient_funds_outcome(m: LedgerModel, ts: Seq<TransferModel>, k: int)
    requires
        0 <= k < ts.len(),
        run_transfers(m, ts.take(k), 0).1 is None,
        ({
            let mk = run_transfers(m, ts.take(k), 0).0;
            &&& has_account(mk.accounts, ts[k].from)
            &&& has_account(mk.accounts, ts[k].to)
            &&& balance_of(mk.accounts, ts[k].from) < ts[k].amount + ts[k].fee
        }),
    ensures
        apply_outcome(m, ts) == (
            run_transfers(m, ts.take(k), 0).0,
            Some(TransferErrorModel::InsufficientFunds { index: k, user: ts[k].from }),
        ),
{
    lemma_run_prefix(m, ts, k, 0);
}

proof fn lemma_profit_to_zero(accounts: Seq<AccountModel>, ts: Seq<TransferModel>, i: int)
    requires
        i <= ts.len(),
        forall|j: int| 0 <= j < ts.len() ==> !transfer_admissible(accounts, #[trigger] ts[j]),
    ensures
        profit_to(accounts, ts, i) == 0,
    decreases i,
{
    if i > 0 {
        lemma_profit_to_zero(accounts, ts, i - 1);
    }
}

/// A transaction none of whose transfers is satisfiable against the baseline
/// balances — in particular one whose only transfer names an unknown sender —
/// simulates to zero profit.
pub proof fn lemma_profit_zero_when_unsatisfiable(
    accounts: Seq<AccountModel>,
    ts: Seq<TransferModel>,
)
    requires
        forall|j: int| 0 <= j < ts.len() ==> !transfer_admissible(accounts, #[trigger] ts[j]),
    ensures
        transaction_profit(accounts, ts) == 0,
{
    lemma_profit_to_zero(accounts, ts, ts.len() as int);
}

proof fn lemma_select_from_max(
    accounts: Seq<AccountModel>,
    candidates: Seq<Seq<TransferModel>>,
    i: int,
    best: Seq<TransferModel>,
)
    requires
        0 <= i <= candidates.len(),
    ensures
        transaction_profit(accounts, select_from(accounts, candidates, i, best))
            >= transaction_profit(accounts, best),
        forall|k: int| i <= k < candidates.len() ==> transaction_profit(
            accounts,
            select_from(accounts, candidates, i, best),
        ) >= transaction_profit(accounts, #[trigger] candidates[k]),
    decreases candidates.len() - i,
{
    if i < candidates.len() {
        if better_candidate(accounts, candidates[i], best) {
            lemma_select_from_max(accounts, candidates, i + 1, candidates[i]);
        } else {
            lemma_select_from_max(accounts, candidates, i + 1, best);
        }
    }
}

/// Selection picks a transaction of maximal simulated profit: no candidate
/// yields strictly more than the one returned, and the returned profit is
/// never negative.
pub proof fn lemma_select_yields_max_profit(
    accounts: Seq<AccountModel>,
    candidates: Seq<Seq<TransferModel>>,
)
    ensures
        forall|k: int| 0 <= k < candidates.len() ==> transaction_profit(
            accounts,
            best_transaction(accounts, candidates),
        ) >= transaction_profit(accounts, #[trigger] candidates[k]),
        transaction_profit(accounts, best_transaction(accounts, candidates)) >= 0,
{
    lemma_select_from_max(accounts, candidates, 0, Seq::empty());
}

/// Selection over no candidates returns the empty transaction: no transfers
/// and zero profit.
pub proof fn lemma_select_empty(accounts: Seq<AccountModel>)
    ensures
        best_transaction(accounts, Seq::empty()) == Seq::<TransferModel>::empty(),
        transaction_profit(accounts, best_transaction(accounts, Seq::empty())) == 0,
{
}

/// Two candidates with the same positive profit: selection picks the one
/// with fewer transfers, and the first of the two when their transfer counts
/// tie as well. Positive profit matters: a candidate with zero profit never
/// displaces the empty starting transaction.
pub proof fn lemma_equal_profit_prefers_fewer(
    accounts: Seq<AccountModel>,
    t1: Seq<TransferModel>,
    t2: Seq<TransferModel>,
)
    requires
        transaction_profit(accounts, t1) == transaction_profit(accounts, t2),
        transaction_profit(accounts, t1) > 0,
    ensures
        best_transaction(accounts, seq![t1, t2]) == if t2.len() < t1.len() {
            t2
        } else {
            t1
        },
{
    let e = Seq::<TransferModel>::empty();
    let cs = seq![t1, t2];
    assert(cs[0] == t1);
    assert(cs[1] == t2);
    assert(transaction_profit(accounts, e) == 0);
    assert(better_candidate(accounts, t1, e));
    assert(best_transaction(accounts, cs) == select_from(accounts, cs, 1, t1));
    assert(select_from(accounts, cs, 2, t1) == t1);
    assert(select_from(accounts, cs, 2, t2) == t2);
    if t2.len() < t1.len() {
        assert(better_candidate(accounts, t2, t1));
        assert(select_from(accounts, cs, 1, t1) == select_from(
            accounts,
            cs,
            2,
            t2,
        ));
    } else {
        assert(!better_candidate(accounts, t2, t1));
        assert(select_from(accounts, cs, 1, t1) == select_from(
            accounts,
            cs,
            2,
            t1,
        ));
    }
}

} // verus!
