//! Claims of sale tokens: by investors once the sale succeeded, and by stakeholders with an
//! individual vesting.
use crate::account_map::AccountKey;
use crate::contract::results::{
    ft_used, json_u128, read_ft_result, read_reported_amount, reported_amount, PromiseOutcome,
};
use crate::contract::AuroraLaunchpadContract;
use crate::mechanics::claim::{
    available_for_claim, available_for_individual_vesting_claim, spec_available_for_claim,
    spec_user_allocation, spec_vested, user_allocation, vesting_fits,
};
use crate::types::{
    DistributionAccount, DistributionProportions, IntentsAccount, LaunchpadConfig,
    LaunchpadStatus, StakeholderProportion,
};
use vstd::prelude::*;

verus! {

/// The amount of a claim and whether its transfer is a call to the intents contract.
pub type ClaimTransfer = (u128, bool);

/// The first stakeholder proportion of `account` that has an individual vesting, if any.
pub open spec fn individual_vesting_of(
    proportions: Seq<StakeholderProportion>,
    account: DistributionAccount,
) -> Option<StakeholderProportion>
    decreases proportions.len(),
{
    if proportions.len() == 0 {
        None
    } else if proportions[0].account.identity() == account.identity()
        && proportions[0].vesting is Some {
        Some(proportions[0])
    } else {
        individual_vesting_of(proportions.drop_first(), account)
    }
}

/// The individual vesting of `account`, if it has one, can be applied from the end of the
/// sale without overflow.
pub open spec fn individual_vesting_fits(config: LaunchpadConfig, account: DistributionAccount) -> bool {
    match individual_vesting_of(config.distribution_proportions.stakeholder_proportions@, account) {
        Some(p) => match p.vesting {
            Some(v) => v.fits_from(config.end_date),
            None => true,
        },
        None => true,
    }
}

proof fn lemma_individual_vesting_split(
    proportions: Seq<StakeholderProportion>,
    account: DistributionAccount,
    i: int,
)
    requires
        0 <= i < proportions.len(),
    ensures
        individual_vesting_of(proportions.subrange(i, proportions.len() as int), account) == if (
        proportions[i].account.identity() == account.identity() && proportions[i].vesting is Some) {
            Some(proportions[i])
        } else {
            individual_vesting_of(proportions.subrange(i + 1, proportions.len() as int), account)
        },
{
    assert(proportions.subrange(i, proportions.len() as int).drop_first() =~= proportions.subrange(
        i + 1,
        proportions.len() as int,
    ));
}

impl DistributionProportions {
    /// Returns the stakeholder proportion of `account` that has an individual vesting.
    pub fn get_individual_vesting_distribution(&self, account: &DistributionAccount) -> (r: Option<
        &StakeholderProportion,
    >)
        ensures
            match individual_vesting_of(self.stakeholder_proportions@, *account) {
                Some(p) => r matches Some(q) && *q == p,
                None => r is None,
            },
    {
        let mut i: usize = 0;
        let ghost props = self.stakeholder_proportions;
        assert(props@.subrange(0, props@.len() as int) =~= props@);
        while i < self.stakeholder_proportions.len()
            invariant
                i <= props.len(),
                props == self.stakeholder_proportions,
                individual_vesting_of(props@, *account) == individual_vesting_of(
                    props@.subrange(i as int, props@.len() as int),
                    *account,
                ),
            decreases self.stakeholder_proportions.len() - i,
        {
            proof {
                lemma_individual_vesting_split(props@, *account, i as int);
            }
            let same = self.stakeholder_proportions[i].account.same_as(account);
            if same && self.stakeholder_proportions[i].vesting.is_some() {
                return Some(&self.stakeholder_proportions[i]);
            }
            i = i + 1;
        }
        assert(props@.subrange(i as int, props@.len() as int) =~= Seq::<
            StakeholderProportion,
        >::empty());
        None
    }
}

impl AuroraLaunchpadContract {
    /// The sale tokens released to `account` by its individual vesting at `now`, when it has
    /// one.
    pub open spec fn individual_vested(&self, account: DistributionAccount, now: u64) -> Option<
        Result<u128, &'static str>,
    > {
        match individual_vesting_of(
            self.config.distribution_proportions.stakeholder_proportions@,
            account,
        ) {
            Some(p) => Some(spec_vested(p.allocation, p.vesting, self.config.end_date, now)),
            None => None,
        }
    }

    /// The sale tokens already claimed by a stakeholder with an individual vesting.
    pub open spec fn individual_claimed_of(&self, account: DistributionAccount) -> u128 {
        if self.individual_vesting_claimed.view().contains_key(account.key()) {
            self.individual_vesting_claimed.view()[account.key()]
        } else {
            0
        }
    }

    /// Returns the sale tokens claimed by `account`, if it invested.
    pub fn get_claimed(&self, account: &IntentsAccount) -> (r: Option<u128>)
        ensures
            r == (if self.investments.view().contains_key(account.key()) {
                Some(self.investments.view()[account.key()].claimed)
            } else {
                None
            }),
    {
        match self.investments.get(account) {
            Some(i) => Some(i.claimed),
            None => None,
        }
    }

    /// Returns the sale tokens claimed by a stakeholder with an individual vesting, if any.
    pub fn get_individual_vesting_claimed(&self, account: &DistributionAccount) -> (r: Option<u128>)
        ensures
            r == (if self.individual_vesting_claimed.view().contains_key(account.key()) {
                Some(self.individual_vesting_claimed.view()[account.key()])
            } else {
                None
            }),
    {
        self.individual_vesting_claimed.get(account)
    }

    /// Returns the sale tokens that a stakeholder can claim from its individual vesting at
    /// `now`: what is released minus what was claimed; zero without an individual vesting or
    /// when the release cannot be computed.
    pub fn get_available_for_individual_vesting_claim(&self, account: &DistributionAccount, now: u64)
        -> (r: u128)
        requires
            individual_vesting_fits(self.config, *account),
        ensures
            r == match self.individual_vested(*account, now) {
                Some(Ok(v)) => v.saturating_sub(self.individual_claimed_of(*account)),
                _ => 0,
            },
    {
        match self.config.distribution_proportions.get_individual_vesting_distribution(account) {
            Some(p) => {
                let released = match available_for_individual_vesting_claim(
                    p.allocation,
                    p.vesting.as_ref(),
                    self.config.end_date,
                    now,
                ) {
                    Ok(v) => v,
                    Err(_) => 0,
                };
                let claimed = match self.individual_vesting_claimed.get(account) {
                    Some(c) => c,
                    None => 0,
                };
                released.saturating_sub(claimed)
            },
            None => 0,
        }
    }

    /// Returns the sale tokens that `account` can claim at `now`: what is released of its
    /// allocation minus what it claimed; zero without an investment or when the release
    /// cannot be computed.
    pub fn get_available_for_claim(&self, account: &IntentsAccount, now: u64) -> (r: u128)
        requires
            vesting_fits(self.config),
        ensures
            r == (if self.investments.view().contains_key(account.key()) {
                let investment = self.investments.view()[account.key()];
                match spec_available_for_claim(
                    investment,
                    self.total_sold_tokens,
                    self.config,
                    now,
                ) {
                    Ok(v) => v.saturating_sub(investment.claimed),
                    Err(_) => 0,
                }
            } else {
                0
            }),
    {
        match self.investments.get(account) {
            Some(investment) => {
                let released = match available_for_claim(
                    &investment,
                    self.total_sold_tokens,
                    &self.config,
                    now,
                ) {
                    Ok(v) => v,
                    Err(_) => 0,
                };
                released.saturating_sub(investment.claimed)
            },
            None => 0,
        }
    }

    /// Returns the allocation of sale tokens of `account`; zero without an investment or when
    /// it cannot be computed.
    pub fn get_user_allocation(&self, account: &IntentsAccount) -> (r: u128)
        ensures
            r == (if self.investments.view().contains_key(account.key()) {
                match spec_user_allocation(
                    self.investments.view()[account.key()].weight,
                    self.total_sold_tokens,
                    self.config,
                ) {
                    Ok(v) => v,
                    Err(_) => 0,
                }
            } else {
                0
            }),
    {
        match self.investments.get(account) {
            Some(investment) => match user_allocation(
                investment.weight,
                self.total_sold_tokens,
                &self.config,
            ) {
                Ok(v) => v,
                Err(_) => 0,
            },
            None => 0,
        }
    }

    /// Returns the allocation of a stakeholder with an individual vesting, zero without one.
    pub fn get_individual_vesting_user_allocation(&self, account: &DistributionAccount) -> (r: u128)
        ensures
            r == match individual_vesting_of(
                self.config.distribution_proportions.stakeholder_proportions@,
                *account,
            ) {
                Some(p) => p.allocation,
                None => 0,
            },
    {
        match self.config.distribution_proportions.get_individual_vesting_distribution(account) {
            Some(p) => p.allocation,
            None => 0,
        }
    }

    /// Returns the part of the allocation of `account` that is not released yet at `now`.
    pub fn get_remaining_vesting(&self, account: &IntentsAccount, now: u64) -> (r: u128)
        requires
            vesting_fits(self.config),
        ensures
            r == (if self.investments.view().contains_key(account.key()) {
                let investment = self.investments.view()[account.key()];
                let released = match spec_available_for_claim(
                    investment,
                    self.total_sold_tokens,
                    self.config,
                    now,
                ) {
                    Ok(v) => v,
                    Err(_) => 0,
                };
                let allocation = match spec_user_allocation(
                    investment.weight,
                    self.total_sold_tokens,
                    self.config,
                ) {
                    Ok(v) => v,
                    Err(_) => 0,
                };
                allocation.saturating_sub(released)
            } else {
                0
            }),
    {
        match self.investments.get(account) {
            Some(investment) => {
                let released = match available_for_claim(
                    &investment,
                    self.total_sold_tokens,
                    &self.config,
                    now,
                ) {
                    Ok(v) => v,
                    Err(_) => 0,
                };
                let allocation = match user_allocation(
                    investment.weight,
                    self.total_sold_tokens,
                    &self.config,
                ) {
                    Ok(v) => v,
                    Err(_) => 0,
                };
                allocation.saturating_sub(released)
            },
            None => 0,
        }
    }

    /// Returns the part of the allocation of a stakeholder with an individual vesting that is
    /// not released yet at `now`; zero without one.
    pub fn get_individual_vesting_remaining_vesting(&self, account: &DistributionAccount, now: u64)
        -> (r: u128)
        requires
            individual_vesting_fits(self.config, *account),
        ensures
            r == match individual_vesting_of(
                self.config.distribution_proportions.stakeholder_proportions@,
                *account,
            ) {
                Some(p) => p.allocation.saturating_sub(
                    match spec_vested(p.allocation, p.vesting, self.config.end_date, now) {
                        Ok(v) => v,
                        Err(_) => 0,
                    },
                ),
                None => 0,
            },
    {
        match self.config.distribution_proportions.get_individual_vesting_distribution(account) {
            Some(p) => {
                let released = match available_for_individual_vesting_claim(
                    p.allocation,
                    p.vesting.as_ref(),
                    self.config.end_date,
                    now,
                ) {
                    Ok(v) => v,
                    Err(_) => 0,
                };
                p.allocation.saturating_sub(released)
            },
            None => 0,
        }
    }

    /// Claims for `account` at `now` what is released and not claimed yet, once the sale
    /// succeeded: the amount is recorded as claimed and returned, to be transferred.
    /// `self` is the state after a claim by `account` at `now` on `old` that returned `r`: once
    /// the sale succeeded, what is released and not claimed yet is recorded as claimed and
    /// returned; on an error nothing changes.
    pub open spec fn claim_taken(
        &self,
        old: AuroraLaunchpadContract,
        account: IntentsAccount,
        now: u64,
        r: Result<u128, &'static str>,
    ) -> bool {
        if old.status_at(now) != LaunchpadStatus::Success {
            r == Err::<u128, &'static str>(
                "Claim can be called only if the launchpad finishes with success status",
            ) && *self == old
        } else if !old.investments.view().contains_key(account.key()) {
            r == Err::<u128, &'static str>("No deposit was found for the intents account")
                && *self == old
        } else {
            let investment = old.investments.view()[account.key()];
            match spec_available_for_claim(investment, old.total_sold_tokens, old.config, now) {
                Err(e) => r == Err::<u128, &'static str>(e) && *self == old,
                Ok(released) => {
                    let assets = released.saturating_sub(investment.claimed);
                    if assets == 0 {
                        r == Err::<u128, &'static str>("No assets to claim") && *self == old
                    } else {
                        &&& r == Ok::<u128, &'static str>(assets)
                        &&& self.investments.view() == old.investments.view().insert(
                            account.key(),
                            crate::types::InvestmentAmount {
                                claimed: investment.claimed.saturating_add(assets),
                                ..investment
                            },
                        )
                        &&& self.same_except_investments(&old)
                    }
                },
            }
        }
    }

    /// Claims for `account` at `now` what is released and not claimed yet, once the sale
    /// succeeded: the amount is recorded as claimed and returned, to be transferred.
    pub fn claim(&mut self, account: &IntentsAccount, now: u64) -> (r: Result<u128, &'static str>)
        requires
            vesting_fits(old(self).config),
        ensures
            final(self).claim_taken(*old(self), *account, now, r),
    {
        if !self.is_success(now) {
            return Err("Claim can be called only if the launchpad finishes with success status");
        }
        let mut investment = match self.investments.get(account) {
            Some(i) => i,
            None => return Err("No deposit was found for the intents account"),
        };
        let released = available_for_claim(&investment, self.total_sold_tokens, &self.config, now)?;
        let assets_amount = released.saturating_sub(investment.claimed);
        if assets_amount == 0 {
            return Err("No assets to claim");
        }
        investment.claimed = investment.claimed.saturating_add(assets_amount);
        self.investments.insert(account.copy_key(), investment);
        Ok(assets_amount)
    }

    /// Everything but the investments is the same in `self` and `other`.
    pub open spec fn same_except_investments(&self, other: &Self) -> bool {
        &&& self.config == other.config
        &&& self.participants_count == other.participants_count
        &&& self.total_deposited == other.total_deposited
        &&& self.total_sold_tokens == other.total_sold_tokens
        &&& self.vestings.view() == other.vestings.view()
        &&& self.individual_vesting_claimed.view() == other.individual_vesting_claimed.view()
        &&& self.is_sale_token_set == other.is_sale_token_set
        &&& self.is_locked == other.is_locked
        &&& self.distributed_accounts.view() == other.distributed_accounts.view()
        &&& self.locked_withdraw.view() == other.locked_withdraw.view()
        &&& self.deposits_distribution == other.deposits_distribution
        &&& self.withdrawn_unsold_tokens == other.withdrawn_unsold_tokens
        &&& self.discount_state == other.discount_state
    }

    /// Everything but the individual vesting claims is the same in `self` and `other`.
    pub open spec fn same_except_individual_claims(&self, other: &Self) -> bool {
        &&& self.config == other.config
        &&& self.participants_count == other.participants_count
        &&& self.total_deposited == other.total_deposited
        &&& self.total_sold_tokens == other.total_sold_tokens
        &&& self.investments.view() == other.investments.view()
        &&& self.vestings.view() == other.vestings.view()
        &&& self.is_sale_token_set == other.is_sale_token_set
        &&& self.is_locked == other.is_locked
        &&& self.distributed_accounts.view() == other.distributed_accounts.view()
        &&& self.locked_withdraw.view() == other.locked_withdraw.view()
        &&& self.deposits_distribution == other.deposits_distribution
        &&& self.withdrawn_unsold_tokens == other.withdrawn_unsold_tokens
        &&& self.discount_state == other.discount_state
    }

    /// `self` is the state after settling on `old` a claim of `assets_amount` by `account`
    /// whose transfer had `outcome`, which returned `r`: what the transfer did not use is
    /// given back to the claimable amount.
    pub open spec fn claim_settled(
        &self,
        old: AuroraLaunchpadContract,
        account: IntentsAccount,
        assets_amount: u128,
        outcome: PromiseOutcome,
        r: Result<(), &'static str>,
    ) -> bool {
        let refund = assets_amount.saturating_sub(ft_used(outcome, assets_amount));
        if refund == 0 {
            r is Ok && *self == old
        } else if !old.investments.view().contains_key(account.key()) {
            r == Err::<(), &'static str>("No deposit was found for the intents account")
                && *self == old
        } else {
            let investment = old.investments.view()[account.key()];
            &&& r is Ok
            &&& self.investments.view() == old.investments.view().insert(
                account.key(),
                crate::types::InvestmentAmount {
                    claimed: investment.claimed.saturating_sub(refund),
                    ..investment
                },
            )
            &&& self.same_except_investments(&old)
        }
    }

    /// Settles a claim of `assets_amount` for `account` from the outcome of its transfer:
    /// what the transfer did not use is given back to the claimable amount.
    pub fn finish_claim(&mut self, account: &IntentsAccount, assets_amount: u128, outcome: &PromiseOutcome)
        -> (r: Result<(), &'static str>)
        ensures
            final(self).claim_settled(*old(self), *account, assets_amount, *outcome, r),
    {
        let used = read_ft_result(outcome, assets_amount);
        let refund = assets_amount.saturating_sub(used);
        if refund > 0 {
            let mut investment = match self.investments.get(account) {
                Some(i) => i,
                None => return Err("No deposit was found for the intents account"),
            };
            investment.claimed = investment.claimed.saturating_sub(refund);
            self.investments.insert(account.copy_key(), investment);
        }
        Ok(())
    }

    /// Claims for a stakeholder with an individual vesting what is released at `now` and not
    /// claimed yet, once the sale succeeded. Returns the amount, to be transferred, and
    /// whether the transfer is a call (to an intents account) rather than a plain transfer.
    pub fn claim_individual_vesting(&mut self, account: &DistributionAccount, now: u64) -> (r: Result<
        (u128, bool),
        &'static str,
    >)
        requires
            individual_vesting_fits(old(self).config, *account),
        ensures
            old(self).status_at(now) != LaunchpadStatus::Success ==> r == Err::<
                ClaimTransfer,
                &'static str,
            >("Claim can be called only if the launchpad finishes with success status")
                && *final(self) == *old(self),
            old(self).status_at(now) == LaunchpadStatus::Success ==> match old(
                self,
            ).individual_vested(*account, now) {
                None => r == Err::<ClaimTransfer, &'static str>(
                    "No proportion was found for the account",
                ) && *final(self) == *old(self),
                Some(Err(e)) => r == Err::<ClaimTransfer, &'static str>(e) && *final(self) == *old(self),
                Some(Ok(released)) => {
                    let claimed = old(self).individual_claimed_of(*account);
                    let assets = released.saturating_sub(claimed);
                    let is_call = match *account {
                        DistributionAccount::Intents(_) => true,
                        DistributionAccount::Near(_) => false,
                    };
                    if released == 0 || assets == 0 {
                        r == Err::<ClaimTransfer, &'static str>("No assets to claim") && *final(self) == *old(self)
                    } else {
                        &&& r == Ok::<ClaimTransfer, &'static str>(
                            (assets, is_call),
                        )
                        &&& final(self).individual_vesting_claimed.view() == old(
                            self,
                        ).individual_vesting_claimed.view().insert(
                            account.key(),
                            claimed.saturating_add(assets),
                        )
                        &&& final(self).same_except_individual_claims(old(self))
                    }
                },
            },
    {
        if !self.is_success(now) {
            return Err("Claim can be called only if the launchpad finishes with success status");
        }
        let (allocation, vesting) = match self.config.distribution_proportions.get_individual_vesting_distribution(
            account,
        ) {
            Some(p) => (p.allocation, p.vesting),
            None => return Err("No proportion was found for the account"),
        };
        let claimed = match self.individual_vesting_claimed.get(account) {
            Some(c) => c,
            None => 0,
        };
        let released = available_for_individual_vesting_claim(
            allocation,
            vesting.as_ref(),
            self.config.end_date,
            now,
        )?;
        if released == 0 {
            return Err("No assets to claim");
        }
        let assets_amount = released.saturating_sub(claimed);
        if assets_amount == 0 {
            return Err("No assets to claim");
        }
        self.individual_vesting_claimed.insert(account.copy_key(), claimed.saturating_add(assets_amount));
        let is_call = match account {
            DistributionAccount::Intents(_) => true,
            DistributionAccount::Near(_) => false,
        };
        Ok((assets_amount, is_call))
    }

    /// Settles an individual vesting claim of `assets_amount` from the outcome of its
    /// transfer: a failed transfer gives everything back to the claimable amount; a call gives
    /// back what it does not report as used (everything when the result does not decode, which
    /// counts as nothing used); a plain transfer that succeeded gives nothing back.
    pub fn finish_claim_individual_vesting(
        &mut self,
        account: &DistributionAccount,
        assets_amount: u128,
        is_call: bool,
        outcome: &PromiseOutcome,
    ) -> (r: Result<(), &'static str>)
        ensures
            ({
                let refund = match reported_amount(*outcome, 0) {
                    Some(used) => if is_call {
                        assets_amount.saturating_sub(used)
                    } else {
                        0
                    },
                    None => assets_amount,
                };
                if refund == 0 {
                    r is Ok && *final(self) == *old(self)
                } else if !old(self).individual_vesting_claimed.view().contains_key(account.key()) {
                    r == Err::<(), &'static str>("No deposit was found for the intents account")
                        && *final(self) == *old(self)
                } else {
                    &&& r is Ok
                    &&& final(self).individual_vesting_claimed.view() == old(
                        self,
                    ).individual_vesting_claimed.view().insert(
                        account.key(),
                        old(self).individual_vesting_claimed.view()[account.key()].saturating_sub(
                            refund,
                        ),
                    )
                    &&& final(self).same_except_individual_claims(old(self))
                }
            }),
    {
        let refund = match read_reported_amount(outcome, 0) {
            Some(used) => if is_call {
                assets_amount.saturating_sub(used)
            } else {
                0
            },
            None => assets_amount,
        };
        if refund > 0 {
            let claimed = match self.individual_vesting_claimed.get(account) {
                Some(c) => c,
                None => return Err("No deposit was found for the intents account"),
            };
            self.individual_vesting_claimed.insert(account.copy_key(), claimed.saturating_sub(refund));
        }
        Ok(())
    }
}

} // verus!

verus! {

/// A claim whose transfer failed gives the claimed amount back: after the claim and its
/// failed settlement, the investments are as before the claim.
pub proof fn lemma_failed_claim_restores(
    before: AuroraLaunchpadContract,
    claimed: AuroraLaunchpadContract,
    settled: AuroraLaunchpadContract,
    account: IntentsAccount,
    now: u64,
    assets: u128,
    r: Result<(), &'static str>,
)
    requires
        claimed.claim_taken(before, account, now, Ok(assets)),
        settled.claim_settled(claimed, account, assets, PromiseOutcome::Failed, r),
    ensures
        r is Ok,
        settled.investments.view() == before.investments.view(),
        settled.same_except_investments(&before),
{
    assert(settled.investments.view() =~= before.investments.view());
}

/// A successful claim takes everything released and nothing more: afterwards the investment
/// has claimed exactly what is released at the time of the claim.
pub proof fn lemma_claim_takes_what_is_released(
    before: AuroraLaunchpadContract,
    after: AuroraLaunchpadContract,
    account: IntentsAccount,
    now: u64,
    assets: u128,
)
    requires
        after.claim_taken(before, account, now, Ok(assets)),
    ensures
        before.investments.view().contains_key(account.key()),
        spec_available_for_claim(
            before.investments.view()[account.key()],
            before.total_sold_tokens,
            before.config,
            now,
        ) matches Ok(released) && after.investments.view()[account.key()].claimed == released
            && before.investments.view()[account.key()].claimed < released,
{
}

} // verus!
