//! The mathematical model of the ledger: what applying a transaction means,
//! how a transaction's simulated profit is computed, and which candidate the
//! selection routine picks.

use vstd::prelude::*;

use crate::account::AccountModel;
use crate::account::TransferErrorModel;
use crate::account::TransferModel;

verus! {

/// The mathematical value of the whole ledger: the accounts in their listing
/// order, and the system balance that accumulates collected fees.
#[verifier::ext_equal]
pub struct LedgerModel {
    pub accounts: Seq<AccountModel>,
    pub system_balance: int,
}

/// Whether some account carries the identifier `user`.
pub open spec fn has_account(accounts: Seq<AccountModel>, user: Seq<char>) -> bool {
    exists|i: int| 0 <= i < accounts.len() && accounts[i].user == user
}

/// Whether `i` is the first position whose account carries the identifier
/// `user`. Lookups resolve to the first match, so duplicate identifiers
/// resolve deterministically.
pub open spec fn is_first_match(accounts: Seq<AccountModel>, user: Seq<char>, i: int) -> bool {
    &&& 0 <= i < accounts.len()
    &&& accounts[i].user == user
    &&& forall|j: int| 0 <= j < i ==> accounts[j].user != user
}

/// The position that a lookup of `user` resolves to: the first match.
pub open spec fn account_index(accounts: Seq<AccountModel>, user: Seq<char>) -> int {
    choose|i: int| is_first_match(accounts, user, i)
}

/// The balance that a lookup of `user` observes.
pub open spec fn balance_of(accounts: Seq<AccountModel>, user: Seq<char>) -> int {
    accounts[account_index(accounts, user)].balance
}

pub proof fn lemma_first_match_unique(
    accounts: Seq<AccountModel>,
    user: Seq<char>,
    i: int,
    j: int,
)
    requires
        is_first_match(accounts, user, i),
        is_first_match(accounts, user, j),
    ensures
        i == j,
{
}

/// Some account at or before position `w` carries `user`, so a first match
/// exists.
pub proof fn lemma_exists_first_match(accounts: Seq<AccountModel>, user: Seq<char>, w: int)
    requires
        0 <= w < accounts.len(),
        accounts[w].user == user,
    ensures
        exists|i: int| is_first_match(accounts, user, i),
    decreases w,
{
    if forall|j: int| 0 <= j < w ==> accounts[j].user != user {
        assert(is_first_match(accounts, user, w));
    } else {
        let w2 = choose|j: int| 0 <= j < w && accounts[j].user == user;
        lemma_exists_first_match(accounts, user, w2);
    }
}

/// `account_index` is the first match whenever the account exists; knowing
/// any first match pins it down.
pub proof fn lemma_account_index(accounts: Seq<AccountModel>, user: Seq<char>, i: int)
    requires
        is_first_match(accounts, user, i),
    ensures
        has_account(accounts, user),
        account_index(accounts, user) == i,
{
    assert(has_account(accounts, user));
    let c = account_index(accounts, user);
    assert(is_first_match(accounts, user, c));
    lemma_first_match_unique(accounts, user, i, c);
}

/// `account_index` of an existing account is a first match.
pub proof fn lemma_has_account_index(accounts: Seq<AccountModel>, user: Seq<char>)
    requires
        has_account(accounts, user),
    ensures
        is_first_match(accounts, user, account_index(accounts, user)),
{
    let w = choose|i: int| 0 <= i < accounts.len() && accounts[i].user == user;
    lemma_exists_first_match(accounts, user, w);
}

/// Account sequences with the same identifiers in the same order hold the
/// same identifiers.
pub proof fn lemma_same_users_same_lookup(
    a1: Seq<AccountModel>,
    a2: Seq<AccountModel>,
    user: Seq<char>,
)
    requires
        a1.len() == a2.len(),
        forall|j: int| 0 <= j < a1.len() ==> a1[j].user == a2[j].user,
    ensures
        has_account(a1, user) == has_account(a2, user),
        has_account(a1, user) ==> account_index(a1, user) == account_index(a2, user),
{
    if has_account(a1, user) {
        let w = choose|i: int| 0 <= i < a1.len() && a1[i].user == user;
        assert(a2[w].user == user);
        assert(has_account(a2, user));
        lemma_has_account_index(a1, user);
        lemma_has_account_index(a2, user);
        let i1 = account_index(a1, user);
        assert(is_first_match(a2, user, i1));
        lemma_first_match_unique(a2, user, i1, account_index(a2, user));
    }
    if has_account(a2, user) {
        let w = choose|i: int| 0 <= i < a2.len() && a2[i].user == user;
        assert(a1[w].user == user);
        assert(has_account(a1, user));
    }
}

/// The sum of the first `i` account balances.
pub open spec fn sum_to(accounts: Seq<AccountModel>, i: int) -> int
    decreases i,
{
    if i <= 0 {
        0
    } else {
        sum_to(accounts, i - 1) + accounts[i - 1].balance
    }
}

/// The sum of all account balances.
pub open spec fn sum_balances(accounts: Seq<AccountModel>) -> int {
    sum_to(accounts, accounts.len() as int)
}

/// All account balances plus the system balance: the total wealth that the
/// ledger tracks. Transfers move value between accounts and fees move value
/// into the system balance, so this quantity is conserved.
pub open spec fn wealth(m: LedgerModel) -> int {
    sum_balances(m.accounts) + m.system_balance
}

/// Every balance among the first `i` is non-negative.
pub open spec fn balances_nonneg_to(accounts: Seq<AccountModel>, i: int) -> bool {
    forall|j: int| 0 <= j < i ==> #[trigger] accounts[j].balance >= 0
}

/// Every balance is non-negative.
pub open spec fn balances_nonneg(accounts: Seq<AccountModel>) -> bool {
    balances_nonneg_to(accounts, accounts.len() as int)
}

pub proof fn lemma_sum_to_update(accounts: Seq<AccountModel>, i: int, k: int, a: AccountModel)
    requires
        0 <= k < accounts.len(),
        i <= accounts.len(),
    ensures
        sum_to(accounts.update(k, a), i) == if k < i {
            sum_to(accounts, i) - accounts[k].balance + a.balance
        } else {
            sum_to(accounts, i)
        },
    decreases i,
{
    if i > 0 {
        lemma_sum_to_update(accounts, i - 1, k, a);
    }
}

/// Updating one account shifts the sum of balances by the difference of the
/// balances.
pub proof fn lemma_sum_update(accounts: Seq<AccountModel>, k: int, a: AccountModel)
    requires
        0 <= k < accounts.len(),
    ensures
        sum_balances(accounts.update(k, a)) == sum_balances(accounts) - accounts[k].balance
            + a.balance,
{
    lemma_sum_to_update(accounts, accounts.len() as int, k, a);
}

pub proof fn lemma_sum_to_nonneg(accounts: Seq<AccountModel>, i: int)
    requires
        balances_nonneg_to(accounts, i),
    ensures
        sum_to(accounts, i) >= 0,
    decreases i,
{
    if i > 0 {
        lemma_sum_to_nonneg(accounts, i - 1);
    }
}

/// With non-negative balances, each single balance is at most the sum of all.
pub proof fn lemma_element_le_sum(accounts: Seq<AccountModel>, k: int)
    requires
        balances_nonneg(accounts),
        0 <= k < accounts.len(),
    ensures
        accounts[k].balance <= sum_balances(accounts),
{
    lemma_element_le_sum_to(accounts, k, accounts.len() as int);
}

proof fn lemma_element_le_sum_to(accounts: Seq<AccountModel>, k: int, i: int)
    requires
        balances_nonneg_to(accounts, i),
        0 <= k < i <= accounts.len(),
    ensures
        accounts[k].balance <= sum_to(accounts, i),
    decreases i,
{
    if k == i - 1 {
        lemma_sum_to_nonneg(accounts, i - 1);
    } else {
        lemma_element_le_sum_to(accounts, k, i - 1);
    }
}

/// Whether a transfer can go through against the given balances: sender and
/// recipient exist and the sender's balance covers amount plus fee.
pub open spec fn transfer_admissible(accounts: Seq<AccountModel>, t: TransferModel) -> bool {
    &&& has_account(accounts, t.from)
    &&& has_account(accounts, t.to)
    &&& balance_of(accounts, t.from) >= t.amount + t.fee
}

/// The ledger after one admissible transfer: the sender is debited amount
/// plus fee, then the recipient is credited the amount, and the fee joins the
/// system balance. Debit happens first, so a self-transfer nets to the fee.
pub open spec fn apply_transfer(m: LedgerModel, t: TransferModel) -> LedgerModel {
    let si = account_index(m.accounts, t.from);
    let ri = account_index(m.accounts, t.to);
    let sender = m.accounts[si];
    let debited = m.accounts.update(
        si,
        AccountModel { user: sender.user, balance: sender.balance - t.amount - t.fee },
    );
    let recipient = debited[ri];
    let credited = debited.update(
        ri,
        AccountModel { user: recipient.user, balance: recipient.balance + t.amount },
    );
    LedgerModel { accounts: credited, system_balance: m.system_balance + t.fee }
}

/// The error that the transfer at position `i` raises when it is not
/// admissible: a missing sender is reported first, then a missing recipient,
/// then insufficient funds.
pub open spec fn transfer_error_at(
    accounts: Seq<AccountModel>,
    t: TransferModel,
    i: int,
) -> TransferErrorModel {
    if !has_account(accounts, t.from) {
        TransferErrorModel::SenderNotFound { index: i, user: t.from }
    } else if !has_account(accounts, t.to) {
        TransferErrorModel::RecipientNotFound { index: i, user: t.to }
    } else {
        TransferErrorModel::InsufficientFunds { index: i, user: t.from }
    }
}

/// Runs the transfers of a transaction from position `i` on: each transfer is
/// applied in order; the first transfer that is not admissible stops the run
/// with its error, and the transfers already applied stay applied.
pub open spec fn run_transfers(m: LedgerModel, ts: Seq<TransferModel>, i: int) -> (
    LedgerModel,
    Option<TransferErrorModel>,
)
    decreases ts.len() - i,
{
    if i < 0 || i >= ts.len() {
        (m, None)
    } else if !transfer_admissible(m.accounts, ts[i]) {
        (m, Some(transfer_error_at(m.accounts, ts[i], i)))
    } else {
        run_transfers(apply_transfer(m, ts[i]), ts, i + 1)
    }
}

/// The outcome of applying a whole transaction: the ledger afterwards, and
/// the first error if one arose.
pub open spec fn apply_outcome(m: LedgerModel, ts: Seq<TransferModel>) -> (
    LedgerModel,
    Option<TransferErrorModel>,
)
{
    run_transfers(m, ts, 0)
}

/// What one transfer contributes to a transaction's simulated profit: its fee
/// if it is admissible against the baseline balances, zero otherwise.
pub open spec fn transfer_profit(accounts: Seq<AccountModel>, t: TransferModel) -> int {
    if transfer_admissible(accounts, t) {
        t.fee
    } else {
        0
    }
}

/// The simulated profit of the first `i` transfers. Every transfer is checked
/// against the same baseline balances: effects of earlier transfers in the
/// same transaction are not carried forward.
pub open spec fn profit_to(accounts: Seq<AccountModel>, ts: Seq<TransferModel>, i: int) -> int
    decreases i,
{
    if i <= 0 {
        0
    } else {
        profit_to(accounts, ts, i - 1) + transfer_profit(accounts, ts[i - 1])
    }
}

/// The simulated profit of a whole transaction: the total fee yield of its
/// transfers that are admissible against the baseline balances.
pub open spec fn transaction_profit(accounts: Seq<AccountModel>, ts: Seq<TransferModel>) -> int {
    profit_to(accounts, ts, ts.len() as int)
}

/// Whether `cand` displaces `best` during selection: strictly higher profit,
/// or equal profit with strictly fewer transfers.
pub open spec fn better_candidate(
    accounts: Seq<AccountModel>,
    cand: Seq<TransferModel>,
    best: Seq<TransferModel>,
) -> bool {
    ||| transaction_profit(accounts, cand) > transaction_profit(accounts, best)
    ||| (transaction_profit(accounts, cand) == transaction_profit(accounts, best)
        && cand.len() < best.len())
}

/// Folds the selection rule over the candidates from position `i` on,
/// carrying the best candidate seen so far.
pub open spec fn select_from(
    accounts: Seq<AccountModel>,
    candidates: Seq<Seq<TransferModel>>,
    i: int,
    best: Seq<TransferModel>,
) -> Seq<TransferModel>
    decreases candidates.len() - i,
{
    if i < 0 || i >= candidates.len() {
        best
    } else if better_candidate(accounts, candidates[i], best) {
        select_from(accounts, candidates, i + 1, candidates[i])
    } else {
        select_from(accounts, candidates, i + 1, best)
    }
}

/// The transaction that selection picks from the candidates: the fold starts
/// from the empty transaction, whose profit is zero.
pub open spec fn best_transaction(
    accounts: Seq<AccountModel>,
    candidates: Seq<Seq<TransferModel>>,
) -> Seq<TransferModel> {
    select_from(accounts, candidates, 0, Seq::empty())
}

} // verus!
