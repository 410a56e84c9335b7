//! Withdrawals of deposits: when they are allowed, taking them out of the investment, and
//! settling them once the transfer reports how much it delivered.
use crate::account_map::AccountKey;
use crate::contract::results::{
    check_passed, ft_used, mt_used, read_check, read_ft_result, read_mt_result, PromiseOutcome,
};
use crate::contract::AuroraLaunchpadContract;
use crate::discount::distribution::lemma_deposit_distribution_never_oversells;
use crate::mechanics::deposit::{deposit, deposit_outcome};
use crate::mechanics::withdraw::{recalculable, withdraw, withdraw_outcome};
use crate::types::{
    weights_total, DepositDistribution, DistributionView, IntentsAccount, InvestmentAmount,
    LaunchpadStatus, Mechanics,
};
use vstd::prelude::*;

verus! {

/// The most intents a withdrawal may carry.
pub const MAX_INTENTS: usize = 10;

/// Whether a withdrawal comes with signed intents, and whether they were verified.
#[derive(Debug, Clone, Copy, PartialEq, Eq, Structural)]
pub enum WithdrawIntents {
    NotPresent,
    Present { valid: bool },
}

/// The state of an investment and of the totals before a withdrawal.
pub type BeforeWithdraw = (InvestmentAmount, u128, u128);

/// Why a distribution cannot be used to recompute a price-discovery weight, if it cannot.
pub open spec fn recalculation_error(distribution: DistributionView) -> Option<&'static str> {
    match distribution {
        DistributionView::WithDiscount { phase_weights, public_sale_weight, refund } => if refund
            != 0 {
            Some("Refund in withdrawal with mechanic PriceDiscovery is not supported")
        } else if weights_total(phase_weights) + public_sale_weight > u128::MAX {
            Some("Weight overflow")
        } else {
            None
        },
        DistributionView::WithoutDiscount(_) => None,
        DistributionView::Refund(_) => Some("Refund in withdrawal is not supported"),
    }
}

/// Returns why the distribution cannot be used to recompute a price-discovery weight, if it
/// cannot.
fn check_recalculable(distribution: &DepositDistribution) -> (r: Result<(), &'static str>)
    ensures
        match recalculation_error(distribution@) {
            Some(e) => r == Err::<(), &'static str>(e),
            None => r is Ok && recalculable(distribution@),
        },
{
    match distribution {
        DepositDistribution::WithDiscount { phase_weights, public_sale_weight, refund } => {
            if *refund != 0 {
                return Err("Refund in withdrawal with mechanic PriceDiscovery is not supported");
            }
            let total = DepositDistribution::discount_weight_sum(phase_weights, *public_sale_weight);
            if total == u128::MAX {
                // The sum may have been capped: check it exactly.
                let mut acc: u128 = 0;
                let mut i: usize = 0;
                while i < phase_weights.len()
                    invariant
                        i <= phase_weights.len(),
                        *refund == 0,
                        distribution@ == (DistributionView::WithDiscount {
                            phase_weights: phase_weights@,
                            public_sale_weight: *public_sale_weight,
                            refund: *refund,
                        }),
                        acc == weights_total(phase_weights@.subrange(0, i as int)),
                    decreases phase_weights.len() - i,
                {
                    assert(phase_weights@.subrange(0, i + 1).drop_last() =~= phase_weights@.subrange(
                        0,
                        i as int,
                    ));
                    match acc.checked_add(phase_weights[i].1) {
                        Some(v) => acc = v,
                        None => {
                            proof {
                                lemma_weights_prefix(phase_weights@, i + 1);
                            }
                            return Err("Weight overflow");
                        },
                    }
                    i = i + 1;
                }
                assert(phase_weights@.subrange(0, i as int) =~= phase_weights@);
                if acc.checked_add(*public_sale_weight).is_none() {
                    return Err("Weight overflow");
                }
            }
            Ok(())
        },
        DepositDistribution::WithoutDiscount(_) => Ok(()),
        DepositDistribution::Refund(_) => Err("Refund in withdrawal is not supported"),
    }
}

/// The sum of a prefix of the weights is at most the sum of all of them.
proof fn lemma_weights_prefix(w: Seq<(u16, u128)>, k: int)
    requires
        0 <= k <= w.len(),
    ensures
        weights_total(w.subrange(0, k)) <= weights_total(w),
    decreases w.len() - k,
{
    if k < w.len() {
        lemma_weights_prefix(w, k + 1);
        assert(w.subrange(0, k + 1).drop_last() =~= w.subrange(0, k));
    } else {
        assert(w.subrange(0, k) =~= w);
    }
}

impl AuroraLaunchpadContract {
    /// Whether a withdrawal is allowed at `now`: without intents once the sale failed or is
    /// locked; with verified intents also while a price-discovery sale is ongoing; never with
    /// intents that failed verification.
    pub open spec fn withdrawal_allowed(&self, withdraw_intents: WithdrawIntents, now: u64) -> bool {
        let status = self.status_at(now);
        let finished = status == LaunchpadStatus::Failed || status == LaunchpadStatus::Locked;
        match withdraw_intents {
            WithdrawIntents::NotPresent => finished,
            WithdrawIntents::Present { valid } => valid && (finished || (
            self.config.mechanics is PriceDiscovery && status == LaunchpadStatus::Ongoing)),
        }
    }

    /// Returns whether a withdrawal is allowed at `now`.
    pub fn is_withdrawal_allowed(&self, withdraw_intents: WithdrawIntents, now: u64) -> (r: bool)
        ensures
            r == self.withdrawal_allowed(withdraw_intents, now),
    {
        let status = self.get_status(now);
        let is_price_discovery_ongoing = !self.config.mechanics.is_fixed_price_mechanics()
            && status == LaunchpadStatus::Ongoing;
        let finished = status == LaunchpadStatus::Failed || status == LaunchpadStatus::Locked;
        match withdraw_intents {
            WithdrawIntents::NotPresent => finished,
            WithdrawIntents::Present { valid } => valid && (is_price_discovery_ongoing || finished),
        }
    }

    /// `self` is the state after taking `amount` out of the investment of `account` at `now`
    /// on `old`, which returned `r`: the weight of what remains is recomputed with the
    /// discount phases that apply to it now, and the account is marked as having a
    /// withdrawal in progress; on an error nothing changes.
    pub open spec fn withdrawal_taken(
        &self,
        old: AuroraLaunchpadContract,
        amount: u128,
        account: IntentsAccount,
        now: u64,
        r: Result<BeforeWithdraw, &'static str>,
    ) -> bool {
        if !old.investments.view().contains_key(account.key()) {
            r == Err::<BeforeWithdraw, &'static str>("No deposit for the intents account")
                && *self == old
        } else {
            let investment = old.investments.view()[account.key()];
            if amount > investment.amount {
                r == Err::<BeforeWithdraw, &'static str>(
                    "Withdraw amount is greater than the deposit amount",
                ) && *self == old
            } else {
                let distribution = old.distribution_for(
                    account,
                    (investment.amount - amount) as u128,
                    now,
                );
                match (if old.config.mechanics is PriceDiscovery {
                    recalculation_error(distribution)
                } else {
                    None
                }) {
                    Some(e) => r == Err::<BeforeWithdraw, &'static str>(e) && *self == old,
                    None => match withdraw_outcome(
                        investment,
                        amount,
                        old.total_deposited,
                        old.total_sold_tokens,
                        old.config,
                        distribution,
                    ) {
                        Err(e) => r == Err::<BeforeWithdraw, &'static str>(e) && *self == old,
                        Ok((updated, total_deposited, total_sold_tokens)) => {
                            &&& r == Ok::<BeforeWithdraw, &'static str>(
                                (investment, old.total_deposited, old.total_sold_tokens),
                            )
                            &&& self.investments.view() == old.investments.view().insert(
                                account.key(),
                                updated,
                            )
                            &&& self.total_deposited == total_deposited
                            &&& self.total_sold_tokens == total_sold_tokens
                            &&& self.locked_withdraw.view() == old.locked_withdraw.view().insert(
                                account.key(),
                                (),
                            )
                            &&& self.same_settings_but_locks(&old)
                        },
                    },
                }
            }
        }
    }

    /// Takes `amount` out of the investment of `account` at `now`, recomputing the weight of
    /// what remains with the discount phases that apply to it now, and marks the account as
    /// having a withdrawal in progress. Returns the investment and totals from before, to be
    /// restored if the transfer fails. On an error nothing changes.
    pub fn do_withdraw(&mut self, amount: u128, account: &IntentsAccount, now: u64) -> (r: Result<
        BeforeWithdraw,
        &'static str,
    >)
        requires
            old(self).config.mechanics.valid(),
        ensures
            final(self).withdrawal_taken(*old(self), amount, *account, now, r),
    {
        let investment = match self.investments.get(account) {
            Some(i) => i,
            None => return Err("No deposit for the intents account"),
        };
        let remain_deposit = match investment.amount.checked_sub(amount) {
            Some(v) => v,
            None => return Err("Withdraw amount is greater than the deposit amount"),
        };
        // The remaining deposit is distributed anew over the discount phases of now.
        let deposit_distribution = self.get_deposit_distribution(account, remain_deposit, now);
        if !self.config.mechanics.is_fixed_price_mechanics() {
            check_recalculable(&deposit_distribution)?;
        }
        let before_withdraw = (investment, self.total_deposited, self.total_sold_tokens);
        let mut updated = investment;
        let mut total_deposited = self.total_deposited;
        let mut total_sold_tokens = self.total_sold_tokens;
        withdraw(
            &mut updated,
            amount,
            &mut total_deposited,
            &mut total_sold_tokens,
            &self.config,
            &deposit_distribution,
        )?;
        self.investments.insert(account.copy_key(), updated);
        self.total_deposited = total_deposited;
        self.total_sold_tokens = total_sold_tokens;
        // The lock prevents a second withdrawal before this one settles.
        self.locked_withdraw.insert(account.copy_key(), ());
        Ok(before_withdraw)
    }

    /// Everything but the sale totals, the investments and the withdrawal locks is the same.
    pub open spec fn same_settings_but_locks(&self, other: &Self) -> bool {
        &&& self.config == other.config
        &&& self.participants_count == other.participants_count
        &&& self.vestings.view() == other.vestings.view()
        &&& self.individual_vesting_claimed.view() == other.individual_vesting_claimed.view()
        &&& self.is_sale_token_set == other.is_sale_token_set
        &&& self.is_locked == other.is_locked
        &&& self.distributed_accounts.view() == other.distributed_accounts.view()
        &&& self.deposits_distribution == other.deposits_distribution
        &&& self.withdrawn_unsold_tokens == other.withdrawn_unsold_tokens
        &&& self.discount_state == other.discount_state
    }
}

/// What a withdrawal needs next.
#[derive(Debug, Clone, Copy, PartialEq, Eq)]
pub enum WithdrawStep {
    /// The signed intents have to be verified before the withdrawal goes on.
    VerifyIntents,
    /// The deposit was taken out; the transfer follows. Holds the state from before.
    Transfer(BeforeWithdraw),
}

/// The outcome of the key checks of the intents: their number must match, and they are valid
/// when every check passed.
pub open spec fn intents_outcome(intents_count: usize, results: Seq<PromiseOutcome>) -> Result<
    WithdrawIntents,
    &'static str,
> {
    if results.len() != intents_count {
        Err("Wrong number of promise results")
    } else {
        Ok(
            WithdrawIntents::Present {
                valid: forall|i: int| 0 <= i < results.len() ==> check_passed(#[trigger] results[i]),
            },
        )
    }
}

/// Returns whether the intents of a withdrawal passed their key checks, given one result per
/// intent.
pub fn validate_intents_results(intents_count: usize, results: &Vec<PromiseOutcome>) -> (r: Result<
    WithdrawIntents,
    &'static str,
>)
    ensures
        r == intents_outcome(intents_count, results@),
{
    if results.len() != intents_count {
        return Err("Wrong number of promise results");
    }
    let mut valid = true;
    let mut i: usize = 0;
    while i < results.len()
        invariant
            i <= results.len(),
            valid == forall|j: int| 0 <= j < i ==> check_passed(#[trigger] results@[j]),
        decreases results.len() - i,
    {
        let passed = read_check(&results[i]);
        valid = valid && passed;
        i = i + 1;
    }
    Ok(WithdrawIntents::Present { valid })
}

impl AuroraLaunchpadContract {
    /// Starts a withdrawal of `amount` by `account` at `now`. With signed intents, only their
    /// number is checked here and the intents are verified next. Without intents the
    /// withdrawal must be allowed, and the deposit is taken out.
    pub fn withdraw(
        &mut self,
        amount: u128,
        account: &IntentsAccount,
        intents_count: Option<usize>,
        now: u64,
    ) -> (r: Result<WithdrawStep, &'static str>)
        requires
            old(self).config.mechanics.valid(),
        ensures
            old(self).locked_withdraw.view().contains_key(account.key()) ==> r == Err::<
                WithdrawStep,
                &'static str,
            >("Withdraw is still in progress") && *final(self) == *old(self),
            !old(self).locked_withdraw.view().contains_key(account.key()) ==> match intents_count {
                Some(n) => *final(self) == *old(self) && if n == 0 {
                    r == Err::<WithdrawStep, &'static str>("No intent provided")
                } else if n > MAX_INTENTS {
                    r == Err::<WithdrawStep, &'static str>("Too much intent provided")
                } else {
                    r == Ok::<WithdrawStep, &'static str>(WithdrawStep::VerifyIntents)
                },
                None => if !old(self).withdrawal_allowed(WithdrawIntents::NotPresent, now) {
                    r == Err::<WithdrawStep, &'static str>("Withdraw is not allowed")
                        && *final(self) == *old(self)
                } else {
                    exists|t: Result<BeforeWithdraw, &'static str>|
                        #[trigger] final(self).withdrawal_taken(*old(self), amount, *account, now, t)
                            && r == match t {
                            Ok(b) => Ok::<WithdrawStep, &'static str>(WithdrawStep::Transfer(b)),
                            Err(e) => Err::<WithdrawStep, &'static str>(e),
                        }
                },
            },
    {
        if self.locked_withdraw.contains_key(account) {
            return Err("Withdraw is still in progress");
        }
        match intents_count {
            Some(n) => {
                if n == 0 {
                    return Err("No intent provided");
                }
                if n > MAX_INTENTS {
                    return Err("Too much intent provided");
                }
                Ok(WithdrawStep::VerifyIntents)
            },
            None => {
                if !self.is_withdrawal_allowed(WithdrawIntents::NotPresent, now) {
                    return Err("Withdraw is not allowed");
                }
                let t = self.do_withdraw(amount, account, now);
                match t {
                    Ok(b) => Ok(WithdrawStep::Transfer(b)),
                    Err(e) => Err(e),
                }
            },
        }
    }

    /// Goes on with a withdrawal once the intents' key checks came back: the checks must all
    /// pass and the withdrawal must be allowed; then the deposit is taken out. While the
    /// sale is ongoing a failed transfer is always refunded. Returns whether to refund a
    /// failed transfer and the state from before.
    pub fn do_withdraw_with_intents(
        &mut self,
        amount: u128,
        account: &IntentsAccount,
        intents_count: usize,
        results: &Vec<PromiseOutcome>,
        refund_if_fails: Option<bool>,
        now: u64,
    ) -> (r: Result<(bool, BeforeWithdraw), &'static str>)
        requires
            old(self).config.mechanics.valid(),
        ensures
            old(self).locked_withdraw.view().contains_key(account.key()) ==> r == Err::<
                (bool, BeforeWithdraw),
                &'static str,
            >("Withdraw is still in progress") && *final(self) == *old(self),
            !old(self).locked_withdraw.view().contains_key(account.key()) ==> match intents_outcome(
                intents_count,
                results@,
            ) {
                Err(e) => r == Err::<(bool, BeforeWithdraw), &'static str>(e) && *final(self)
                    == *old(self),
                Ok(w) => if !old(self).withdrawal_allowed(w, now) {
                    r == Err::<(bool, BeforeWithdraw), &'static str>("Withdraw is not allowed")
                        && *final(self) == *old(self)
                } else {
                    let refund = if old(self).status_at(now) == LaunchpadStatus::Ongoing {
                        true
                    } else {
                        match refund_if_fails {
                            Some(b) => b,
                            None => false,
                        }
                    };
                    exists|t: Result<BeforeWithdraw, &'static str>|
                        #[trigger] final(self).withdrawal_taken(*old(self), amount, *account, now, t)
                            && r == match t {
                            Ok(b) => Ok::<(bool, BeforeWithdraw), &'static str>((refund, b)),
                            Err(e) => Err::<(bool, BeforeWithdraw), &'static str>(e),
                        }
                },
            },
    {
        if self.locked_withdraw.contains_key(account) {
            return Err("Withdraw is still in progress");
        }
        let withdraw_intents = validate_intents_results(intents_count, results)?;
        if !self.is_withdrawal_allowed(withdraw_intents, now) {
            return Err("Withdraw is not allowed");
        }
        // A failed transfer is always refunded while the sale is ongoing.
        let refund = if self.is_ongoing(now) {
            true
        } else {
            match refund_if_fails {
                Some(b) => b,
                None => false,
            }
        };
        let t = self.do_withdraw(amount, account, now);
        match t {
            Ok(b) => Ok((refund, b)),
            Err(e) => Err(e),
        }
    }

    /// The investments and totals after putting `amount` back into the investment of
    /// `account` at `now`, as a deposit that must not be refunded.
    pub open spec fn part_return(&self, account: IntentsAccount, amount: u128, now: u64) -> Result<
        (InvestmentAmount, u128, u128),
        &'static str,
    > {
        if !self.investments.view().contains_key(account.key()) {
            Err("No deposits were found for the intents account")
        } else {
            match deposit_outcome(
                self.investments.view()[account.key()],
                amount,
                self.total_deposited,
                self.total_sold_tokens,
                self.config,
                self.distribution_for(account, amount, now),
            ) {
                Err(e) => Err(e),
                Ok((investment, total_deposited, total_sold_tokens, refund)) => if refund != 0 {
                    Err("Unexpected refund")
                } else {
                    Ok((investment, total_deposited, total_sold_tokens))
                },
            }
        }
    }

    /// Puts `amount` back into the investment of `account` at `now`, as a deposit distributed
    /// over the discount phases of now. Nothing may be refunded. On an error nothing
    /// changes.
    pub fn return_part_of_deposit(&mut self, account: &IntentsAccount, amount: u128, now: u64) -> (r:
        Result<(), &'static str>)
        requires
            old(self).config.mechanics.valid(),
        ensures
            match old(self).part_return(*account, amount, now) {
                Err(e) => r == Err::<(), &'static str>(e) && *final(self) == *old(self),
                Ok((investment, total_deposited, total_sold_tokens)) => {
                    &&& r is Ok
                    &&& final(self).investments.view() == old(self).investments.view().insert(
                        account.key(),
                        investment,
                    )
                    &&& final(self).total_deposited == total_deposited
                    &&& final(self).total_sold_tokens == total_sold_tokens
                    &&& final(self).locked_withdraw.view() == old(self).locked_withdraw.view()
                    &&& final(self).same_settings_but_locks(old(self))
                },
            },
            old(self).config.mechanics is FixedPrice && old(self).total_sold_tokens <= old(
                self,
            ).config.sale_amount ==> final(self).total_sold_tokens <= final(self).config.sale_amount,
    {
        proof {
            if let Some(state) = &self.discount_state {
                if self.config.mechanics is FixedPrice {
                    lemma_deposit_distribution_never_oversells(
                        state@,
                        *account,
                        amount,
                        now,
                        self.config,
                        self.total_sold_tokens,
                    );
                }
            }
        }
        let mut investment = match self.investments.get(account) {
            Some(i) => i,
            None => return Err("No deposits were found for the intents account"),
        };
        let deposit_distribution = self.get_deposit_distribution(account, amount, now);
        let mut total_deposited = self.total_deposited;
        let mut total_sold_tokens = self.total_sold_tokens;
        let refund = deposit(
            &mut investment,
            amount,
            &mut total_deposited,
            &mut total_sold_tokens,
            &self.config,
            &deposit_distribution,
        )?;
        // Withdrawals that can come back are settled after the sale, or with price discovery,
        // which never refunds.
        if refund != 0 {
            return Err("Unexpected refund");
        }
        self.investments.insert(account.copy_key(), investment);
        self.total_deposited = total_deposited;
        self.total_sold_tokens = total_sold_tokens;
        Ok(())
    }

    /// Restores the investment of `account` and the totals from before a withdrawal.
    pub fn rollback_investments(&mut self, account: &IntentsAccount, before_withdraw: BeforeWithdraw)
        ensures
            final(self).investments.view() == old(self).investments.view().insert(
                account.key(),
                before_withdraw.0,
            ),
            final(self).total_deposited == before_withdraw.1,
            final(self).total_sold_tokens == before_withdraw.2,
            final(self).locked_withdraw.view() == old(self).locked_withdraw.view(),
            final(self).same_settings_but_locks(old(self)),
    {
        let (investment, total_deposited, total_sold_tokens) = before_withdraw;
        self.investments.insert(account.copy_key(), investment);
        self.total_deposited = total_deposited;
        self.total_sold_tokens = total_sold_tokens;
    }

    /// The investments and totals once a withdrawal of `amount` whose transfer used `used`
    /// settles: a fully used transfer keeps the withdrawal; an unused one restores the state
    /// from before; a partly used one puts the rest back as a deposit.
    pub open spec fn settlement(
        &self,
        account: IntentsAccount,
        amount: u128,
        before_withdraw: BeforeWithdraw,
        used: u128,
        now: u64,
    ) -> Result<(Map<(bool, Seq<char>), InvestmentAmount>, u128, u128), &'static str> {
        if used >= amount {
            Ok((self.investments.view(), self.total_deposited, self.total_sold_tokens))
        } else if used == 0 {
            Ok(
                (
                    self.investments.view().insert(account.key(), before_withdraw.0),
                    before_withdraw.1,
                    before_withdraw.2,
                ),
            )
        } else {
            match self.part_return(account, (amount - used) as u128, now) {
                Err(e) => Err(e),
                Ok((investment, total_deposited, total_sold_tokens)) => Ok(
                    (
                        self.investments.view().insert(account.key(), investment),
                        total_deposited,
                        total_sold_tokens,
                    ),
                ),
            }
        }
    }

    /// `self` is the state after settling on `old` a withdrawal of `amount` by `account`
    /// whose transfer used `used`, which returned `r`: the lock of the account is released;
    /// on an error nothing changes.
    pub open spec fn withdrawal_settled(
        &self,
        old: AuroraLaunchpadContract,
        account: IntentsAccount,
        amount: u128,
        before_withdraw: BeforeWithdraw,
        used: u128,
        now: u64,
        r: Result<(), &'static str>,
    ) -> bool {
        match old.settlement(account, amount, before_withdraw, used, now) {
            Err(e) => r == Err::<(), &'static str>(e) && *self == old,
            Ok((investments, total_deposited, total_sold_tokens)) => {
                &&& r is Ok
                &&& self.investments.view() == investments
                &&& self.total_deposited == total_deposited
                &&& self.total_sold_tokens == total_sold_tokens
                &&& self.locked_withdraw.view() == old.locked_withdraw.view().remove(account.key())
                &&& self.same_settings_but_locks(&old)
            },
        }
    }

    /// Settles a withdrawal of `amount` by `account` whose transfer used `used`.
    fn settle_withdraw(
        &mut self,
        account: &IntentsAccount,
        amount: u128,
        before_withdraw: BeforeWithdraw,
        used: u128,
        now: u64,
    ) -> (r: Result<(), &'static str>)
        requires
            old(self).config.mechanics.valid(),
        ensures
            final(self).withdrawal_settled(
                *old(self),
                *account,
                amount,
                before_withdraw,
                used,
                now,
                r,
            ),
    {
        if used >= amount {
            // Fully delivered: the withdrawal stands.
        } else if used == 0 {
            self.rollback_investments(account, before_withdraw);
        } else {
            self.return_part_of_deposit(account, amount - used, now)?;
        }
        self.locked_withdraw.remove(account);
        Ok(())
    }

    /// Settles a withdrawal of `amount` by `account` from the outcome of its NEP-141
    /// transfer: a failed transfer restores the state from before, a fully used one keeps
    /// the withdrawal, a partly used one puts the rest back; the lock is released.
    pub fn finish_ft_withdraw(
        &mut self,
        account: &IntentsAccount,
        amount: u128,
        before_withdraw: BeforeWithdraw,
        outcome: &PromiseOutcome,
        now: u64,
    ) -> (r: Result<(), &'static str>)
        requires
            old(self).config.mechanics.valid(),
        ensures
            final(self).withdrawal_settled(
                *old(self),
                *account,
                amount,
                before_withdraw,
                ft_used(*outcome, amount),
                now,
                r,
            ),
    {
        let used = read_ft_result(outcome, amount);
        self.settle_withdraw(account, amount, before_withdraw, used, now)
    }

    /// Settles a withdrawal of `amount` by `account` from the outcome of its NEP-245
    /// transfer, as for NEP-141.
    pub fn finish_mt_withdraw(
        &mut self,
        account: &IntentsAccount,
        amount: u128,
        before_withdraw: BeforeWithdraw,
        outcome: &PromiseOutcome,
        now: u64,
    ) -> (r: Result<(), &'static str>)
        requires
            old(self).config.mechanics.valid(),
        ensures
            final(self).withdrawal_settled(
                *old(self),
                *account,
                amount,
                before_withdraw,
                mt_used(*outcome, amount),
                now,
                r,
            ),
    {
        let used = read_mt_result(outcome, amount);
        self.settle_withdraw(account, amount, before_withdraw, used, now)
    }
}

} // verus!

verus! {

/// A withdrawal with verified intents is allowed whenever one without intents is, and one
/// whose intents failed verification never is.
pub proof fn lemma_verified_intents_widen_withdrawal(contract: AuroraLaunchpadContract, now: u64)
    ensures
        contract.withdrawal_allowed(WithdrawIntents::NotPresent, now)
            ==> contract.withdrawal_allowed(WithdrawIntents::Present { valid: true }, now),
        !contract.withdrawal_allowed(WithdrawIntents::Present { valid: false }, now),
{
}

/// A withdrawal whose transfer failed leaves the investments and the totals as they were
/// before the withdrawal, and releases the account.
pub proof fn lemma_failed_withdrawal_restores(
    before: AuroraLaunchpadContract,
    taken: AuroraLaunchpadContract,
    settled: AuroraLaunchpadContract,
    amount: u128,
    account: IntentsAccount,
    now: u64,
    snapshot: BeforeWithdraw,
    r: Result<(), &'static str>,
)
    requires
        amount > 0,
        !before.locked_withdraw.view().contains_key(account.key()),
        taken.withdrawal_taken(before, amount, account, now, Ok(snapshot)),
        settled.withdrawal_settled(taken, account, amount, snapshot, 0, now, r),
    ensures
        r is Ok,
        settled.investments.view() == before.investments.view(),
        settled.total_deposited == before.total_deposited,
        settled.total_sold_tokens == before.total_sold_tokens,
        settled.locked_withdraw.view() == before.locked_withdraw.view(),
{
    let key = account.key();
    assert(before.investments.view().contains_key(key));
    assert(settled.investments.view() =~= before.investments.view());
    assert(settled.locked_withdraw.view() =~= before.locked_withdraw.view());
}

/// A sale that ended below its soft cap lets its participants take their deposits back:
/// a withdrawal without intents is allowed.
pub proof fn lemma_missed_soft_cap_allows_withdrawal(contract: AuroraLaunchpadContract, now: u64)
    requires
        contract.config.start_date <= contract.config.end_date,
        contract.config.end_date <= now,
        contract.is_sale_token_set,
        contract.total_deposited < contract.config.soft_cap,
    ensures
        contract.withdrawal_allowed(WithdrawIntents::NotPresent, now),
{
}

/// A price-discovery withdrawal of `amount` keeps the rest of the deposit, and that rest is
/// weighted anew as a deposit made now: the new weight is the smaller of the old weight and
/// the weight the remaining deposit gets now, so a withdrawal never raises the weight, and
/// without discounts the weight is at most what remains. The total sold tokens drop by the
/// weight given up.
pub proof fn lemma_price_discovery_withdrawal_reweighs_the_rest(
    before: AuroraLaunchpadContract,
    after: AuroraLaunchpadContract,
    amount: u128,
    account: IntentsAccount,
    now: u64,
    snapshot: BeforeWithdraw,
)
    requires
        before.config.mechanics is PriceDiscovery,
        after.withdrawal_taken(before, amount, account, now, Ok(snapshot)),
    ensures
        before.investments.view().contains_key(account.key()),
        after.investments.view().contains_key(account.key()),
        ({
            let old_investment = before.investments.view()[account.key()];
            let new_investment = after.investments.view()[account.key()];
            let regained = crate::mechanics::withdraw::distribution_weight(
                before.distribution_for(account, (old_investment.amount - amount) as u128, now),
            );
            &&& amount <= old_investment.amount
            &&& new_investment.amount == old_investment.amount - amount
            &&& new_investment.weight == if old_investment.weight <= regained {
                old_investment.weight
            } else {
                regained
            }
            &&& new_investment.weight <= old_investment.weight
            &&& (before.discount_state is None ==> new_investment.weight == if old_investment.weight
                <= new_investment.amount {
                old_investment.weight
            } else {
                new_investment.amount
            })
            &&& after.total_sold_tokens == before.total_sold_tokens.saturating_sub(
                (old_investment.weight - new_investment.weight) as u128,
            )
            &&& new_investment.claimed == old_investment.claimed
        }),
{
    assert(after.investments.view().contains_key(account.key()));
}

} // verus!
