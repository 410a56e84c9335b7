//! The sale figures against the investments: the total deposited is the sum of the deposited
//! amounts, the total sold tokens the sum of the weights, and the number of participants the
//! number of investments. Deposits, withdrawals, their settlements and claims keep them so.
use crate::account_map::{
    lemma_total_by_covers, lemma_total_by_insert, lemma_total_by_nonnegative, lemma_total_by_view,
    lemma_view_finite, AccountKey,
};
use crate::contract::results::PromiseOutcome;
use crate::contract::withdraw::{lemma_failed_withdrawal_restores, BeforeWithdraw};
use crate::contract::AuroraLaunchpadContract;
use crate::mechanics::deposit::deposit_outcome;
use crate::types::{IntentsAccount, InvestmentAmount};
use vstd::prelude::*;

verus! {

/// The deposited amount of an investment.
pub open spec fn amount_part() -> spec_fn(InvestmentAmount) -> int {
    |i: InvestmentAmount| i.amount as int
}

/// The weight of an investment.
pub open spec fn weight_part() -> spec_fn(InvestmentAmount) -> int {
    |i: InvestmentAmount| i.weight as int
}

impl AuroraLaunchpadContract {
    /// The sum of the deposited amounts of the investments.
    pub open spec fn deposits_sum(&self) -> int {
        self.investments.total_by(amount_part())
    }

    /// The sum of the weights of the investments.
    pub open spec fn weights_sum(&self) -> int {
        self.investments.total_by(weight_part())
    }

    /// The totals are the sums over the investments.
    pub open spec fn totals_balanced(&self) -> bool {
        &&& self.total_deposited == self.deposits_sum()
        &&& self.total_sold_tokens == self.weights_sum()
    }

    /// The number of participants is the number of investments.
    pub open spec fn participants_counted(&self) -> bool {
        self.participants_count == self.investments.view().dom().len()
    }
}

/// Setting the investment of `account` to `investment` moves both sums by the difference
/// from the investment it replaces, which each sum covers.
proof fn lemma_sums_after_update(
    before: AuroraLaunchpadContract,
    after: AuroraLaunchpadContract,
    account: IntentsAccount,
    investment: InvestmentAmount,
)
    requires
        before.investments.well_formed(),
        after.investments.well_formed(),
        after.investments.view() == before.investments.view().insert(account.key(), investment),
    ensures
        after.deposits_sum() == before.deposits_sum() - before.investment_of(account).amount
            + investment.amount,
        after.weights_sum() == before.weights_sum() - before.investment_of(account).weight
            + investment.weight,
        before.deposits_sum() >= before.investment_of(account).amount,
        before.weights_sum() >= before.investment_of(account).weight,
{
    lemma_total_by_insert(before.investments, after.investments, account, investment, amount_part());
    lemma_total_by_insert(before.investments, after.investments, account, investment, weight_part());
    assert(forall|v: InvestmentAmount| #[trigger] amount_part()(v) >= 0);
    assert(forall|v: InvestmentAmount| #[trigger] weight_part()(v) >= 0);
    lemma_total_by_nonnegative(before.investments, amount_part());
    lemma_total_by_nonnegative(before.investments, weight_part());
    if before.investments.view().contains_key(account.key()) {
        lemma_total_by_covers(before.investments, account.key(), amount_part());
        lemma_total_by_covers(before.investments, account.key(), weight_part());
    }
}

/// A deposit keeps the totals equal to the sums over the investments, as long as the sums
/// stay within `u128`.
pub proof fn lemma_deposit_keeps_totals(
    before: AuroraLaunchpadContract,
    after: AuroraLaunchpadContract,
    account: IntentsAccount,
    amount: u128,
    now: u64,
    r: Result<u128, &'static str>,
)
    requires
        before.investments.well_formed(),
        after.investments.well_formed(),
        before.totals_balanced(),
        after.deposit_applied(before, account, amount, now, r),
        after.deposits_sum() <= u128::MAX,
        after.weights_sum() <= u128::MAX,
    ensures
        after.totals_balanced(),
{
    let distribution = before.distribution_for(account, amount, now);
    match deposit_outcome(
        before.investment_of(account),
        amount,
        before.total_deposited,
        before.total_sold_tokens,
        before.config,
        distribution,
    ) {
        Err(_) => {},
        Ok((investment, _, _, _)) => {
            lemma_sums_after_update(before, after, account, investment);
        },
    }
}

/// A withdrawal keeps the totals equal to the sums over the investments.
pub proof fn lemma_withdrawal_keeps_totals(
    before: AuroraLaunchpadContract,
    after: AuroraLaunchpadContract,
    amount: u128,
    account: IntentsAccount,
    now: u64,
    r: Result<BeforeWithdraw, &'static str>,
)
    requires
        before.investments.well_formed(),
        after.investments.well_formed(),
        before.totals_balanced(),
        after.withdrawal_taken(before, amount, account, now, r),
    ensures
        after.totals_balanced(),
{
    if r is Ok {
        let updated = after.investments.view()[account.key()];
        assert(after.investments.view() == before.investments.view().insert(account.key(), updated));
        lemma_sums_after_update(before, after, account, updated);
    }
}

/// A claim keeps the totals equal to the sums over the investments: it only records what is
/// claimed.
pub proof fn lemma_claim_keeps_totals(
    before: AuroraLaunchpadContract,
    after: AuroraLaunchpadContract,
    account: IntentsAccount,
    now: u64,
    r: Result<u128, &'static str>,
)
    requires
        before.investments.well_formed(),
        after.investments.well_formed(),
        before.totals_balanced(),
        after.claim_taken(before, account, now, r),
    ensures
        after.totals_balanced(),
{
    if r is Ok {
        let updated = after.investments.view()[account.key()];
        assert(after.investments.view() == before.investments.view().insert(account.key(), updated));
        lemma_sums_after_update(before, after, account, updated);
    }
}

/// Settling a claim keeps the totals equal to the sums over the investments.
pub proof fn lemma_claim_settlement_keeps_totals(
    before: AuroraLaunchpadContract,
    after: AuroraLaunchpadContract,
    account: IntentsAccount,
    assets_amount: u128,
    outcome: PromiseOutcome,
    r: Result<(), &'static str>,
)
    requires
        before.investments.well_formed(),
        after.investments.well_formed(),
        before.totals_balanced(),
        after.claim_settled(before, account, assets_amount, outcome, r),
    ensures
        after.totals_balanced(),
{
    if before.investments.view().contains_key(account.key())
        && after.investments.view() != before.investments.view() {
        let updated = after.investments.view()[account.key()];
        assert(after.investments.view() == before.investments.view().insert(account.key(), updated));
        lemma_sums_after_update(before, after, account, updated);
    } else {
        lemma_total_by_view(before.investments, after.investments, amount_part());
        lemma_total_by_view(before.investments, after.investments, weight_part());
    }
}

/// Settling a withdrawal whose transfer was used, wholly or in part, keeps the totals equal
/// to the sums over the investments, as long as the sums stay within `u128`.
pub proof fn lemma_used_withdrawal_settlement_keeps_totals(
    before: AuroraLaunchpadContract,
    after: AuroraLaunchpadContract,
    account: IntentsAccount,
    amount: u128,
    before_withdraw: BeforeWithdraw,
    used: u128,
    now: u64,
    r: Result<(), &'static str>,
)
    requires
        before.investments.well_formed(),
        after.investments.well_formed(),
        before.totals_balanced(),
        after.withdrawal_settled(before, account, amount, before_withdraw, used, now, r),
        used > 0,
        after.deposits_sum() <= u128::MAX,
        after.weights_sum() <= u128::MAX,
    ensures
        after.totals_balanced(),
{
    if r is Ok && used < amount {
        let updated = after.investments.view()[account.key()];
        assert(after.investments.view() == before.investments.view().insert(account.key(), updated));
        lemma_sums_after_update(before, after, account, updated);
    } else {
        lemma_total_by_view(before.investments, after.investments, amount_part());
        lemma_total_by_view(before.investments, after.investments, weight_part());
    }
}

/// A withdrawal whose transfer failed, settled right after it, leaves the totals balanced as
/// they were before the withdrawal.
pub proof fn lemma_failed_withdrawal_keeps_totals(
    before: AuroraLaunchpadContract,
    taken: AuroraLaunchpadContract,
    settled: AuroraLaunchpadContract,
    amount: u128,
    account: IntentsAccount,
    now: u64,
    snapshot: BeforeWithdraw,
    r: Result<(), &'static str>,
)
    requires
        before.investments.well_formed(),
        settled.investments.well_formed(),
        before.totals_balanced(),
        amount > 0,
        !before.locked_withdraw.view().contains_key(account.key()),
        taken.withdrawal_taken(before, amount, account, now, Ok(snapshot)),
        settled.withdrawal_settled(taken, account, amount, snapshot, 0, now, r),
    ensures
        settled.totals_balanced(),
{
    lemma_failed_withdrawal_restores(before, taken, settled, amount, account, now, snapshot, r);
    lemma_total_by_view(before.investments, settled.investments, amount_part());
    lemma_total_by_view(before.investments, settled.investments, weight_part());
}

/// Every deposit counts its investor once: a deposit keeps the number of participants equal
/// to the number of investments.
pub proof fn lemma_deposit_counts_participants(
    before: AuroraLaunchpadContract,
    after: AuroraLaunchpadContract,
    account: IntentsAccount,
    amount: u128,
    now: u64,
    r: Result<u128, &'static str>,
)
    requires
        before.participants_counted(),
        after.deposit_applied(before, account, amount, now, r),
    ensures
        after.participants_counted(),
{
    lemma_view_finite(before.investments);
    if r is Ok {
        assert(after.investments.view().dom() =~= before.investments.view().dom().insert(
            account.key(),
        ));
    }
}

/// Withdrawals, their settlements and claims change investments but never add or drop one:
/// the number of participants stays the number of investments.
pub proof fn lemma_updates_keep_participants(
    before: AuroraLaunchpadContract,
    after: AuroraLaunchpadContract,
    account: IntentsAccount,
    investment: InvestmentAmount,
)
    requires
        before.participants_counted(),
        before.investments.view().contains_key(account.key()),
        after.participants_count == before.participants_count,
        after.investments.view() == before.investments.view().insert(account.key(), investment),
    ensures
        after.participants_counted(),
{
    assert(after.investments.view().dom() =~= before.investments.view().dom());
}

/// A withdrawal keeps the number of participants equal to the number of investments.
pub proof fn lemma_withdrawal_keeps_participants(
    before: AuroraLaunchpadContract,
    after: AuroraLaunchpadContract,
    amount: u128,
    account: IntentsAccount,
    now: u64,
    r: Result<BeforeWithdraw, &'static str>,
)
    requires
        before.participants_counted(),
        after.withdrawal_taken(before, amount, account, now, r),
    ensures
        after.participants_counted(),
{
    if r is Ok {
        lemma_updates_keep_participants(
            before,
            after,
            account,
            after.investments.view()[account.key()],
        );
    }
}

} // verus!
