//! Distribution after a successful sale: sale tokens to the solver and to the stakeholders
//! without an individual vesting, and deposited tokens to the solver and the fee account.
use crate::account_map::AccountKey;
use crate::contract::results::{
    ft_value, mt_value, read_ft_value, read_mt_value, read_reported_amount, reported_amount,
    PromiseOutcome,
};
use crate::contract::AuroraLaunchpadContract;
use crate::types::{
    DepositsProportions, DistributionAccount, DistributionProportions, LaunchpadStatus,
    StakeholderProportion, MULTIPLIER,
};
use crate::wide::{mul_div, spec_mul_div};
use vstd::prelude::*;

verus! {

/// The most recipients served by one distribution.
pub const DISTRIBUTION_LIMIT_FOR_INTENTS: usize = 7;

/// The transfers that pay out the owed deposits, in order: the solver's, then the fee
/// account's, each only when its amount is not zero. `true` marks the solver's transfer.
pub open spec fn spec_owed_transfers(solver_amount: u128, fee_amount: u128) -> Seq<(bool, u128)> {
    (if solver_amount > 0 {
        seq![(true, solver_amount)]
    } else {
        Seq::empty()
    }) + (if fee_amount > 0 {
        seq![(false, fee_amount)]
    } else {
        Seq::empty()
    })
}

/// Returns the transfers that pay out the owed deposits: the solver's first, each only when
/// its amount is not zero; `true` marks the solver's transfer.
pub fn owed_transfers(solver_amount: u128, fee_amount: u128) -> (r: Vec<(bool, u128)>)
    ensures
        r@ == spec_owed_transfers(solver_amount, fee_amount),
{
    let mut transfers: Vec<(bool, u128)> = Vec::new();
    if solver_amount > 0 {
        transfers.push((true, solver_amount));
    }
    if fee_amount > 0 {
        transfers.push((false, fee_amount));
    }
    assert(transfers@ =~= spec_owed_transfers(solver_amount, fee_amount));
    transfers
}

/// The shares of the deposits: the fee is `fee_percentage` basis points of the total (rounded
/// down) and the solver gets the rest.
pub open spec fn spec_proportions(deposits: DepositsProportions, total: u128) -> Result<
    (u128, u128),
    &'static str,
> {
    match spec_mul_div(total, deposits.fee_percentage as u128, 10_000) {
        Ok(fee) => Ok((total.saturating_sub(fee), fee)),
        Err(e) => Err(e),
    }
}

impl DepositsProportions {
    /// Returns the solver's and the fee account's shares of `total` deposited tokens.
    pub fn calculate_proportions(&self, total: u128) -> (r: Result<(u128, u128), &'static str>)
        ensures
            r == spec_proportions(*self, total),
    {
        let fee = mul_div(total, self.fee_percentage as u128, MULTIPLIER)?;
        Ok((total.saturating_sub(fee), fee))
    }
}

/// The stakeholders without an individual vesting, with their allocations, in order.
pub open spec fn plain_stakeholders(proportions: Seq<StakeholderProportion>) -> Seq<
    (DistributionAccount, u128),
>
    decreases proportions.len(),
{
    if proportions.len() == 0 {
        Seq::empty()
    } else {
        let rest = plain_stakeholders(proportions.drop_last());
        let p = proportions.last();
        if p.vesting is None {
            rest.push((p.account, p.allocation))
        } else {
            rest
        }
    }
}

/// The recipients of sale tokens: the solver first, then the stakeholders without an
/// individual vesting.
pub open spec fn recipients(proportions: DistributionProportions) -> Seq<(DistributionAccount, u128)> {
    seq![(proportions.solver_account_id, proportions.solver_allocation)] + plain_stakeholders(
        proportions.stakeholder_proportions@,
    )
}

/// What is still owed to a recipient of `amount`, given what was distributed to it: nothing
/// while a distribution to it is in progress or once it got everything.
pub open spec fn still_owed(distributed: Option<(u128, bool)>, amount: u128) -> Option<u128> {
    match distributed {
        None => Some(amount),
        Some((done, busy)) => if done < amount && !busy {
            Some((amount - done) as u128)
        } else {
            None
        },
    }
}

/// The recipients that are still owed something, with what they are owed, in order.
pub open spec fn owed(
    distributed: Map<(bool, Seq<char>), (u128, bool)>,
    candidates: Seq<(DistributionAccount, u128)>,
) -> Seq<(DistributionAccount, u128)>
    decreases candidates.len(),
{
    if candidates.len() == 0 {
        Seq::empty()
    } else {
        let rest = owed(distributed, candidates.drop_last());
        let (account, amount) = candidates.last();
        let recorded = if distributed.contains_key(account.key()) {
            Some(distributed[account.key()])
        } else {
            None
        };
        match still_owed(recorded, amount) {
            Some(a) => rest.push((account, a)),
            None => rest,
        }
    }
}

/// The transfers of one distribution: plain transfers to NEAR accounts, and calls to the
/// intents contract for intents accounts.
pub struct Distributions {
    pub ft_transfers: Vec<(DistributionAccount, u128)>,
    pub ft_transfer_calls: Vec<(DistributionAccount, u128)>,
}

impl Distributions {
    /// Adds a plain transfer.
    pub fn add_ft_transfer(&mut self, account: DistributionAccount, amount: u128)
        ensures
            final(self).ft_transfers@ == old(self).ft_transfers@.push((account, amount)),
            final(self).ft_transfer_calls@ == old(self).ft_transfer_calls@,
    {
        self.ft_transfers.push((account, amount));
    }

    /// Adds a transfer call.
    pub fn add_ft_transfer_call(&mut self, account: DistributionAccount, amount: u128)
        ensures
            final(self).ft_transfer_calls@ == old(self).ft_transfer_calls@.push((account, amount)),
            final(self).ft_transfers@ == old(self).ft_transfers@,
    {
        self.ft_transfer_calls.push((account, amount));
    }
}

/// The entries of `list` for NEAR accounts, in order.
pub open spec fn near_part(list: Seq<(DistributionAccount, u128)>) -> Seq<(DistributionAccount, u128)>
    decreases list.len(),
{
    if list.len() == 0 {
        Seq::empty()
    } else {
        let rest = near_part(list.drop_last());
        if list.last().0 is Near {
            rest.push(list.last())
        } else {
            rest
        }
    }
}

/// The entries of `list` for intents accounts, in order.
pub open spec fn intents_part(list: Seq<(DistributionAccount, u128)>) -> Seq<
    (DistributionAccount, u128),
>
    decreases list.len(),
{
    if list.len() == 0 {
        Seq::empty()
    } else {
        let rest = intents_part(list.drop_last());
        if list.last().0 is Intents {
            rest.push(list.last())
        } else {
            rest
        }
    }
}

/// `distributed` with every account of `list` marked as in progress (an unknown account
/// starting from nothing distributed).
pub open spec fn mark_busy(
    distributed: Map<(bool, Seq<char>), (u128, bool)>,
    list: Seq<(DistributionAccount, u128)>,
) -> Map<(bool, Seq<char>), (u128, bool)>
    decreases list.len(),
{
    if list.len() == 0 {
        distributed
    } else {
        let m = mark_busy(distributed, list.drop_last());
        let key = list.last().0.key();
        let done = if m.contains_key(key) {
            m[key].0
        } else {
            0
        };
        m.insert(key, (done, true))
    }
}

/// `distributed` after the plain transfers settled: each known account is no longer in
/// progress and, when the batch succeeded, has received its amount.
pub open spec fn batch_settled(
    distributed: Map<(bool, Seq<char>), (u128, bool)>,
    transfers: Seq<(DistributionAccount, u128)>,
    succeeded: bool,
) -> Map<(bool, Seq<char>), (u128, bool)>
    decreases transfers.len(),
{
    if transfers.len() == 0 {
        distributed
    } else {
        let m = batch_settled(distributed, transfers.drop_last(), succeeded);
        let (account, amount) = transfers.last();
        let key = account.key();
        if m.contains_key(key) {
            m.insert(
                key,
                (
                    if succeeded {
                        amount
                    } else {
                        m[key].0
                    },
                    false,
                ),
            )
        } else {
            m
        }
    }
}

/// `distributed` after the transfer calls settled, each with its outcome: each known account
/// is no longer in progress and, when its call succeeded, has received what the call reports
/// as used (all of it when the result does not decode).
pub open spec fn calls_settled(
    distributed: Map<(bool, Seq<char>), (u128, bool)>,
    calls: Seq<(DistributionAccount, u128)>,
    outcomes: Seq<PromiseOutcome>,
) -> Result<Map<(bool, Seq<char>), (u128, bool)>, &'static str>
    decreases calls.len(),
{
    if calls.len() == 0 {
        Ok(distributed)
    } else {
        match calls_settled(distributed, calls.drop_last(), outcomes) {
            Err(e) => Err(e),
            Ok(m) => {
                let (account, amount) = calls.last();
                let key = account.key();
                if m.contains_key(key) {
                    let (done, _) = m[key];
                    match reported_amount(outcomes[calls.len() - 1], amount) {
                        Some(used) => if done + used > u128::MAX {
                            Err("Distributed amount overflow")
                        } else {
                            Ok(m.insert(key, ((done + used) as u128, false)))
                        },
                        None => Ok(m.insert(key, (done, false))),
                    }
                } else {
                    Ok(m)
                }
            },
        }
    }
}

impl AuroraLaunchpadContract {
    /// The recipients of sale tokens still owed something, with what they are owed, at most
    /// [`DISTRIBUTION_LIMIT_FOR_INTENTS`] of them.
    pub open spec fn pending_distributions(&self) -> Seq<(DistributionAccount, u128)> {
        let all = owed(self.distributed_accounts.view(), recipients(self.config.distribution_proportions));
        if all.len() > DISTRIBUTION_LIMIT_FOR_INTENTS {
            all.subrange(0, DISTRIBUTION_LIMIT_FOR_INTENTS as int)
        } else {
            all
        }
    }

    /// Returns the recipients of sale tokens that are still owed something (and have no
    /// distribution in progress), with what they are owed, in order: the solver, then the
    /// stakeholders without an individual vesting; at most
    /// [`DISTRIBUTION_LIMIT_FOR_INTENTS`] of them.
    pub fn get_filtered_distributions(&self) -> (r: Vec<(DistributionAccount, u128)>)
        ensures
            r@ == self.pending_distributions(),
    {
        let props = &self.config.distribution_proportions;
        let mut candidates: Vec<(DistributionAccount, u128)> = Vec::new();
        candidates.push((props.solver_account_id.copy_key(), props.solver_allocation));
        let mut i: usize = 0;
        while i < props.stakeholder_proportions.len()
            invariant
                i <= props.stakeholder_proportions.len(),
                *props == self.config.distribution_proportions,
                candidates@ == seq![(props.solver_account_id, props.solver_allocation)]
                    + plain_stakeholders(props.stakeholder_proportions@.subrange(0, i as int)),
            decreases props.stakeholder_proportions.len() - i,
        {
            proof {
                let prefix = props.stakeholder_proportions@.subrange(0, i + 1);
                assert(prefix.drop_last() =~= props.stakeholder_proportions@.subrange(0, i as int));
            }
            let p = &props.stakeholder_proportions[i];
            if p.vesting.is_none() {
                candidates.push((p.account.copy_key(), p.allocation));
                assert(candidates@ =~= seq![(props.solver_account_id, props.solver_allocation)]
                    + plain_stakeholders(props.stakeholder_proportions@.subrange(0, i + 1)));
            } else {
                assert(candidates@ =~= seq![(props.solver_account_id, props.solver_allocation)]
                    + plain_stakeholders(props.stakeholder_proportions@.subrange(0, i + 1)));
            }
            i = i + 1;
        }
        assert(props.stakeholder_proportions@.subrange(0, i as int)
            =~= props.stakeholder_proportions@);
        let mut result: Vec<(DistributionAccount, u128)> = Vec::new();
        let mut j: usize = 0;
        while j < candidates.len()
            invariant
                j <= candidates.len(),
                result@ == owed(self.distributed_accounts.view(), candidates@.subrange(0, j as int)),
            decreases candidates.len() - j,
        {
            proof {
                let prefix = candidates@.subrange(0, j + 1);
                assert(prefix.drop_last() =~= candidates@.subrange(0, j as int));
            }
            let (account, amount) = (&candidates[j].0, candidates[j].1);
            let recorded = self.distributed_accounts.get(account);
            let pending = match recorded {
                None => Some(amount),
                Some((done, busy)) => if done < amount && !busy {
                    Some(amount - done)
                } else {
                    None
                },
            };
            if let Some(a) = pending {
                result.push((account.copy_key(), a));
            }
            j = j + 1;
        }
        assert(candidates@.subrange(0, j as int) =~= candidates@);
        if result.len() > DISTRIBUTION_LIMIT_FOR_INTENTS {
            result.truncate(DISTRIBUTION_LIMIT_FOR_INTENTS);
        }
        result
    }

    /// The deposited tokens still owed to the solver and the fee account; without a fee
    /// account everything goes to the solver.
    pub open spec fn owed_deposits(&self) -> Result<(u128, u128), &'static str> {
        let total = self.total_deposited;
        match self.config.distribution_proportions.deposits {
            None => Ok((total.saturating_sub(self.deposits_distribution.solver_amount), 0)),
            Some(d) => match spec_proportions(d, total) {
                Ok((solver, fee)) => Ok(
                    (
                        solver.saturating_sub(self.deposits_distribution.solver_amount),
                        fee.saturating_sub(self.deposits_distribution.fee_amount),
                    ),
                ),
                Err(e) => Err(e),
            },
        }
    }

    /// Returns the deposited tokens still owed to the solver and to the fee account.
    pub fn calculate_distribution(&self) -> (r: Result<(u128, u128), &'static str>)
        ensures
            r == self.owed_deposits(),
    {
        let total = self.total_deposited;
        match &self.config.distribution_proportions.deposits {
            None => Ok((total.saturating_sub(self.deposits_distribution.solver_amount), 0)),
            Some(d) => {
                let (solver, fee) = d.calculate_proportions(total)?;
                Ok(
                    (
                        solver.saturating_sub(self.deposits_distribution.solver_amount),
                        fee.saturating_sub(self.deposits_distribution.fee_amount),
                    ),
                )
            },
        }
    }

    /// The deposits were fully distributed to the solver and the fee account (always so
    /// without a fee account).
    pub open spec fn deposits_distributed(&self) -> bool {
        match self.config.distribution_proportions.deposits {
            None => true,
            Some(d) => {
                let (solver, fee) = match spec_proportions(d, self.total_deposited) {
                    Ok(p) => p,
                    Err(_) => (0u128, 0u128),
                };
                self.deposits_distribution.solver_amount == solver
                    && self.deposits_distribution.fee_amount == fee
            },
        }
    }

    /// Returns whether the deposits were fully distributed.
    pub fn is_deposits_distributed(&self) -> (r: bool)
        ensures
            r == self.deposits_distributed(),
    {
        match &self.config.distribution_proportions.deposits {
            None => true,
            Some(d) => {
                let (solver, fee) = match d.calculate_proportions(self.total_deposited) {
                    Ok(p) => p,
                    Err(_) => (0, 0),
                };
                self.deposits_distribution.solver_amount == solver
                    && self.deposits_distribution.fee_amount == fee
            },
        }
    }

    /// Everything but the distributed deposits is the same in `self` and `other`.
    pub open spec fn same_except_deposits_distribution(&self, other: &Self) -> bool {
        &&& self.config == other.config
        &&& self.participants_count == other.participants_count
        &&& self.total_deposited == other.total_deposited
        &&& self.total_sold_tokens == other.total_sold_tokens
        &&& self.investments.view() == other.investments.view()
        &&& self.vestings.view() == other.vestings.view()
        &&& self.individual_vesting_claimed.view() == other.individual_vesting_claimed.view()
        &&& self.is_sale_token_set == other.is_sale_token_set
        &&& self.is_locked == other.is_locked
        &&& self.distributed_accounts.view() == other.distributed_accounts.view()
        &&& self.locked_withdraw.view() == other.locked_withdraw.view()
        &&& self.withdrawn_unsold_tokens == other.withdrawn_unsold_tokens
        &&& self.discount_state == other.discount_state
    }

    /// Starts the distribution of the deposited tokens at `now`, after a successful sale and
    /// when none is in progress: returns what is owed to the solver and to the fee account,
    /// and marks the distribution as in progress.
    pub fn distribute_deposit_tokens(&mut self, now: u64) -> (r: Result<(u128, u128), &'static str>)
        ensures
            old(self).status_at(now) != LaunchpadStatus::Success ==> r == Err::<
                (u128, u128),
                &'static str,
            >("Deposited tokens could be distributed after success only") && *final(self) == *old(
                self),
            old(self).status_at(now) == LaunchpadStatus::Success ==> if old(
                self,
            ).deposits_distribution.is_ongoing {
                r == Err::<(u128, u128), &'static str>("Deposit distribution is ongoing")
                    && *final(self) == *old(self)
            } else {
                match old(self).owed_deposits() {
                    Err(e) => r == Err::<(u128, u128), &'static str>(e) && *final(self) == *old(
                        self),
                    Ok((solver, fee)) => if solver == 0 && fee == 0 {
                        r == Err::<(u128, u128), &'static str>(
                            "Deposit tokens have been already distributed",
                        ) && *final(self) == *old(self)
                    } else {
                        &&& r == Ok::<(u128, u128), &'static str>((solver, fee))
                        &&& final(self).deposits_distribution == (crate::types::DepositsDistribution {
                            is_ongoing: true,
                            ..old(self).deposits_distribution
                        })
                        &&& final(self).same_except_deposits_distribution(old(self))
                    },
                }
            },
    {
        if !self.is_success(now) {
            return Err("Deposited tokens could be distributed after success only");
        }
        if self.deposits_distribution.is_ongoing {
            return Err("Deposit distribution is ongoing");
        }
        let (solver_amount, fee_amount) = self.calculate_distribution()?;
        if !(solver_amount > 0 || fee_amount > 0) {
            return Err("Deposit tokens have been already distributed");
        }
        self.deposits_distribution.is_ongoing = true;
        Ok((solver_amount, fee_amount))
    }

    /// Settles a distribution of deposited tokens from the outcomes of its transfers (one per
    /// non-zero amount, the solver's first): the amounts the transfers report are added to
    /// what was distributed. With an unexpected number of outcomes nothing is added. The
    /// distribution is no longer in progress.
    pub fn finish_distribute_deposits(
        &mut self,
        solver_amount: u128,
        fee_amount: u128,
        is_ft: bool,
        outcomes: &Vec<PromiseOutcome>,
    ) -> (r: Result<(), &'static str>)
        ensures
            ({
                let n = outcomes@.len();
                let read = |o: PromiseOutcome|
                    if is_ft {
                        ft_value(o)
                    } else {
                        mt_value(o)
                    };
                let (solver, fee) = if n == 1 || n == 2 {
                    if solver_amount > 0 && fee_amount > 0 {
                        (read(outcomes@[0]), if n == 2 {
                            read(outcomes@[1])
                        } else {
                            0
                        })
                    } else if solver_amount > 0 {
                        (read(outcomes@[0]), 0)
                    } else if fee_amount > 0 {
                        (0, read(outcomes@[0]))
                    } else {
                        (0, 0)
                    }
                } else {
                    (0, 0)
                };
                if solver_amount > 0 && fee_amount > 0 && n == 1 {
                    r == Err::<(), &'static str>("Missing promise result") && *final(self) == *old(
                        self)
                } else if old(self).deposits_distribution.solver_amount + solver > u128::MAX || old(
                    self,
                ).deposits_distribution.fee_amount + fee > u128::MAX {
                    r == Err::<(), &'static str>("Distributed amount overflow") && *final(self)
                        == *old(self)
                } else {
                    &&& r is Ok
                    &&& final(self).deposits_distribution == (crate::types::DepositsDistribution {
                        solver_amount: (old(self).deposits_distribution.solver_amount
                            + solver) as u128,
                        fee_amount: (old(self).deposits_distribution.fee_amount + fee) as u128,
                        is_ongoing: false,
                    })
                    &&& final(self).same_except_deposits_distribution(old(self))
                }
            }),
    {
        let n = outcomes.len();
        let mut solver_distributed: u128 = 0;
        let mut fee_distributed: u128 = 0;
        if n == 1 || n == 2 {
            if solver_amount > 0 && fee_amount > 0 {
                if n == 1 {
                    return Err("Missing promise result");
                }
                solver_distributed = if is_ft {
                    read_ft_value(&outcomes[0])
                } else {
                    read_mt_value(&outcomes[0])
                };
                fee_distributed = if is_ft {
                    read_ft_value(&outcomes[1])
                } else {
                    read_mt_value(&outcomes[1])
                };
            } else if solver_amount > 0 {
                solver_distributed = if is_ft {
                    read_ft_value(&outcomes[0])
                } else {
                    read_mt_value(&outcomes[0])
                };
            } else if fee_amount > 0 {
                fee_distributed = if is_ft {
                    read_ft_value(&outcomes[0])
                } else {
                    read_mt_value(&outcomes[0])
                };
            }
        }
        let solver_total = match self.deposits_distribution.solver_amount.checked_add(
            solver_distributed,
        ) {
            Some(v) => v,
            None => return Err("Distributed amount overflow"),
        };
        let fee_total = match self.deposits_distribution.fee_amount.checked_add(fee_distributed) {
            Some(v) => v,
            None => return Err("Distributed amount overflow"),
        };
        self.deposits_distribution.solver_amount = solver_total;
        self.deposits_distribution.fee_amount = fee_total;
        self.deposits_distribution.is_ongoing = false;
        Ok(())
    }

    /// Everything but the distributed accounts is the same in `self` and `other`.
    pub open spec fn same_except_distributed(&self, other: &Self) -> bool {
        &&& self.config == other.config
        &&& self.participants_count == other.participants_count
        &&& self.total_deposited == other.total_deposited
        &&& self.total_sold_tokens == other.total_sold_tokens
        &&& self.investments.view() == other.investments.view()
        &&& self.vestings.view() == other.vestings.view()
        &&& self.individual_vesting_claimed.view() == other.individual_vesting_claimed.view()
        &&& self.is_sale_token_set == other.is_sale_token_set
        &&& self.is_locked == other.is_locked
        &&& self.locked_withdraw.view() == other.locked_withdraw.view()
        &&& self.deposits_distribution == other.deposits_distribution
        &&& self.withdrawn_unsold_tokens == other.withdrawn_unsold_tokens
        &&& self.discount_state == other.discount_state
    }

    /// Starts a distribution of sale tokens at `now`, after a successful sale: the recipients
    /// still owed something are marked as in progress and returned, split into plain
    /// transfers (NEAR accounts) and transfer calls (intents accounts), each in order.
    pub fn distribute_tokens(&mut self, now: u64) -> (r: Result<Distributions, &'static str>)
        ensures
            old(self).status_at(now) != LaunchpadStatus::Success ==> r is Err && r->Err_0
                == "Distribution can be called only if the launchpad finishes with success status"
                && *final(self) == *old(self),
            old(self).status_at(now) == LaunchpadStatus::Success ==> {
                let pending = old(self).pending_distributions();
                if pending.len() == 0 {
                    r is Err && r->Err_0 == "Tokens have been already distributed" && *final(self)
                        == *old(self)
                } else {
                    &&& r matches Ok(d) && d.ft_transfers@ == near_part(pending)
                        && d.ft_transfer_calls@ == intents_part(pending)
                    &&& final(self).distributed_accounts.view() == mark_busy(
                        old(self).distributed_accounts.view(),
                        pending,
                    )
                    &&& final(self).same_except_distributed(old(self))
                }
            },
    {
        if !self.is_success(now) {
            return Err("Distribution can be called only if the launchpad finishes with success status");
        }
        let distributions = self.get_filtered_distributions();
        if distributions.len() == 0 {
            return Err("Tokens have been already distributed");
        }
        let ghost start = self.distributed_accounts.view();
        let mut result = Distributions { ft_transfers: Vec::new(), ft_transfer_calls: Vec::new() };
        let mut i: usize = 0;
        while i < distributions.len()
            invariant
                i <= distributions.len(),
                self.distributed_accounts.view() == mark_busy(
                    start,
                    distributions@.subrange(0, i as int),
                ),
                result.ft_transfers@ == near_part(distributions@.subrange(0, i as int)),
                result.ft_transfer_calls@ == intents_part(distributions@.subrange(0, i as int)),
                self.same_except_distributed(old(self)),
            decreases distributions.len() - i,
        {
            proof {
                let prefix = distributions@.subrange(0, i + 1);
                assert(prefix.drop_last() =~= distributions@.subrange(0, i as int));
            }
            let account = &distributions[i].0;
            let amount = distributions[i].1;
            // Mark the account as in progress, against a second distribution.
            let done = match self.distributed_accounts.get(account) {
                Some((d, _)) => d,
                None => 0,
            };
            self.distributed_accounts.insert(account.copy_key(), (done, true));
            match account {
                DistributionAccount::Intents(_) => result.add_ft_transfer_call(
                    account.copy_key(),
                    amount,
                ),
                DistributionAccount::Near(_) => result.add_ft_transfer(account.copy_key(), amount),
            }
            i = i + 1;
        }
        assert(distributions@.subrange(0, i as int) =~= distributions@);
        Ok(result)
    }

    /// Settles a distribution of sale tokens from the outcomes of its transfers: the outcome
    /// of the batch of plain transfers first (when there are any), then one per transfer
    /// call. Every recipient is no longer in progress; a successful plain transfer records
    /// its amount as distributed, a successful call adds what it reports as used (all of it
    /// when the result does not decode). On an error nothing changes.
    pub fn finish_distribution(&mut self, distributions: Distributions, outcomes: &Vec<PromiseOutcome>)
        -> (r: Result<(), &'static str>)
        ensures
            ({
                let has_batch = distributions.ft_transfers@.len() > 0;
                let start: int = if has_batch {
                    1
                } else {
                    0
                };
                if outcomes@.len() != distributions.ft_transfer_calls@.len() + start {
                    r == Err::<(), &'static str>("Mismatched number of promise results")
                        && *final(self) == *old(self)
                } else {
                    let after_batch = if has_batch {
                        batch_settled(
                            old(self).distributed_accounts.view(),
                            distributions.ft_transfers@,
                            outcomes@[0] is Successful,
                        )
                    } else {
                        old(self).distributed_accounts.view()
                    };
                    match calls_settled(
                        after_batch,
                        distributions.ft_transfer_calls@,
                        outcomes@.subrange(start, outcomes@.len() as int),
                    ) {
                        Err(e) => r == Err::<(), &'static str>(e) && *final(self) == *old(self),
                        Ok(m) => r is Ok && final(self).distributed_accounts.view() == m
                            && final(self).same_except_distributed(old(self)),
                    }
                }
            }),
    {
        let has_batch = distributions.ft_transfers.len() > 0;
        let start: usize = if has_batch {
            1
        } else {
            0
        };
        if outcomes.len() < start || outcomes.len() - start != distributions.ft_transfer_calls.len() {
            return Err("Mismatched number of promise results");
        }
        let mut distributed = self.distributed_accounts.duplicate();
        if has_batch {
            let succeeded = match &outcomes[0] {
                PromiseOutcome::Successful(_) => true,
                PromiseOutcome::Failed => false,
            };
            let mut i: usize = 0;
            let ghost before = distributed.view();
            while i < distributions.ft_transfers.len()
                invariant
                    i <= distributions.ft_transfers.len(),
                    distributed.view() == batch_settled(
                        before,
                        distributions.ft_transfers@.subrange(0, i as int),
                        succeeded,
                    ),
                decreases distributions.ft_transfers.len() - i,
            {
                proof {
                    let prefix = distributions.ft_transfers@.subrange(0, i + 1);
                    assert(prefix.drop_last() =~= distributions.ft_transfers@.subrange(0, i as int));
                }
                let account = &distributions.ft_transfers[i].0;
                let amount = distributions.ft_transfers[i].1;
                if let Some((done, _busy)) = distributed.get(account) {
                    let new_done = if succeeded {
                        amount
                    } else {
                        done
                    };
                    distributed.insert(account.copy_key(), (new_done, false));
                }
                i = i + 1;
            }
            assert(distributions.ft_transfers@.subrange(0, i as int)
                =~= distributions.ft_transfers@);
        }
        let ghost after_batch = distributed.view();
        let ghost call_outcomes = outcomes@.subrange(start as int, outcomes@.len() as int);
        let mut j: usize = 0;
        while j < distributions.ft_transfer_calls.len()
            invariant
                j <= distributions.ft_transfer_calls.len(),
                start <= 1,
                *self == *old(self),
                start == (if distributions.ft_transfers@.len() > 0 {
                    1usize
                } else {
                    0usize
                }),
                after_batch == (if distributions.ft_transfers@.len() > 0 {
                    batch_settled(
                        old(self).distributed_accounts.view(),
                        distributions.ft_transfers@,
                        outcomes@[0] is Successful,
                    )
                } else {
                    old(self).distributed_accounts.view()
                }),
                outcomes@.len() == distributions.ft_transfer_calls@.len() + start,
                call_outcomes == outcomes@.subrange(start as int, outcomes@.len() as int),
                calls_settled(
                    after_batch,
                    distributions.ft_transfer_calls@.subrange(0, j as int),
                    call_outcomes,
                ) == Ok::<Map<(bool, Seq<char>), (u128, bool)>, &'static str>(
                    distributed.view(),
                ),
            decreases distributions.ft_transfer_calls.len() - j,
        {
            proof {
                let prefix = distributions.ft_transfer_calls@.subrange(0, j + 1);
                assert(prefix.drop_last() =~= distributions.ft_transfer_calls@.subrange(
                    0,
                    j as int,
                ));
                assert(call_outcomes[j as int] == outcomes@[start + j]);
            }
            let account = &distributions.ft_transfer_calls[j].0;
            let amount = distributions.ft_transfer_calls[j].1;
            if let Some((done, _busy)) = distributed.get(account) {
                match read_reported_amount(&outcomes[start + j], amount) {
                    Some(used) => {
                        let total = match done.checked_add(used) {
                            Some(v) => v,
                            None => {
                                proof {
                                    lemma_calls_stop(
                                        after_batch,
                                        distributions.ft_transfer_calls@,
                                        call_outcomes,
                                        j + 1,
                                    );
                                    assert(distributions.ft_transfer_calls@.subrange(
                                        0,
                                        distributions.ft_transfer_calls@.len() as int,
                                    ) =~= distributions.ft_transfer_calls@);
                                }
                                return Err("Distributed amount overflow");
                            },
                        };
                        distributed.insert(account.copy_key(), (total, false));
                    },
                    None => {
                        distributed.insert(account.copy_key(), (done, false));
                    },
                }
            }
            j = j + 1;
        }
        assert(distributions.ft_transfer_calls@.subrange(0, j as int)
            =~= distributions.ft_transfer_calls@);
        self.distributed_accounts = distributed;
        Ok(())
    }
}

/// Once settling the calls failed, later calls change nothing.
proof fn lemma_calls_stop(
    distributed: Map<(bool, Seq<char>), (u128, bool)>,
    calls: Seq<(DistributionAccount, u128)>,
    outcomes: Seq<PromiseOutcome>,
    k: int,
)
    requires
        0 <= k <= calls.len(),
        calls_settled(distributed, calls.subrange(0, k), outcomes) is Err,
    ensures
        calls_settled(distributed, calls.subrange(0, calls.len() as int), outcomes)
            == calls_settled(distributed, calls.subrange(0, k), outcomes),
    decreases calls.len() - k,
{
    if k < calls.len() {
        assert(calls.subrange(0, k + 1).drop_last() =~= calls.subrange(0, k));
        lemma_calls_stop(distributed, calls, outcomes, k + 1);
    }
}

/// With a fee of at most 100%, the deposits are split between the solver and the fee account
/// without loss: the two shares add up to the total, and the fee is the percentage of the
/// total, rounded down.
pub proof fn lemma_proportions_split_total(deposits: DepositsProportions, total: u128)
    requires
        deposits.fee_percentage <= 10_000,
    ensures
        spec_proportions(deposits, total) matches Ok((solver, fee)) && solver + fee == total
            && fee == total * deposits.fee_percentage / 10_000,
{
    crate::mechanics::claim::lemma_scaled_share_bounded(
        total as nat,
        deposits.fee_percentage as nat,
        10_000,
    );
}

/// The sale tokens already recorded as distributed to `account`; zero when none were.
pub open spec fn distributed_to(
    distributed: Map<(bool, Seq<char>), (u128, bool)>,
    account: DistributionAccount,
) -> u128 {
    if distributed.contains_key(account.key()) {
        distributed[account.key()].0
    } else {
        0
    }
}

/// Every entry owed to a candidate tops up what it already received to its allocation, and
/// none of them has a distribution in progress.
proof fn lemma_owed_entries(
    distributed: Map<(bool, Seq<char>), (u128, bool)>,
    candidates: Seq<(DistributionAccount, u128)>,
)
    ensures
        forall|k: int|
            0 <= k < owed(distributed, candidates).len() ==> {
                let entry = #[trigger] owed(distributed, candidates)[k];
                &&& exists|j: int|
                    0 <= j < candidates.len() && candidates[j].0 == entry.0 && entry.1
                        + distributed_to(distributed, entry.0) == candidates[j].1
                &&& !(distributed.contains_key(entry.0.key())
                    && distributed[entry.0.key()].1)
            },
    decreases candidates.len(),
{
    if candidates.len() > 0 {
        let rest = candidates.drop_last();
        lemma_owed_entries(distributed, rest);
        let all = owed(distributed, candidates);
        let before = owed(distributed, rest);
        assert forall|k: int| 0 <= k < all.len() implies {
            let entry = #[trigger] all[k];
            &&& exists|j: int|
                0 <= j < candidates.len() && candidates[j].0 == entry.0 && entry.1
                    + distributed_to(distributed, entry.0) == candidates[j].1
            &&& !(distributed.contains_key(entry.0.key()) && distributed[entry.0.key()].1)
        } by {
            if k < before.len() {
                assert(all[k] == before[k]);
                let entry = before[k];
                let j = choose|j: int|
                    0 <= j < rest.len() && rest[j].0 == entry.0 && entry.1 + distributed_to(
                        distributed,
                        entry.0,
                    ) == rest[j].1;
                assert(candidates[j] == rest[j]);
            } else {
                let j = candidates.len() - 1;
                assert(candidates[j] == candidates.last());
            }
        }
    }
}

/// The first candidate, when it is still owed something, comes first among the entries owed.
proof fn lemma_owed_first(
    distributed: Map<(bool, Seq<char>), (u128, bool)>,
    candidates: Seq<(DistributionAccount, u128)>,
    amount: u128,
)
    requires
        candidates.len() > 0,
        still_owed(
            if distributed.contains_key(candidates[0].0.key()) {
                Some(distributed[candidates[0].0.key()])
            } else {
                None
            },
            candidates[0].1,
        ) == Some(amount),
    ensures
        owed(distributed, candidates).len() > 0,
        owed(distributed, candidates)[0] == (candidates[0].0, amount),
    decreases candidates.len(),
{
    if candidates.len() > 1 {
        let rest = candidates.drop_last();
        assert(rest[0] == candidates[0]);
        lemma_owed_first(distributed, rest, amount);
        let before = owed(distributed, rest);
        let (account, owed_amount) = candidates.last();
        let recorded = if distributed.contains_key(account.key()) {
            Some(distributed[account.key()])
        } else {
            None
        };
        if let Some(a) = still_owed(recorded, owed_amount) {
            assert(owed(distributed, candidates) == before.push((account, a)));
            assert(before.push((account, a))[0] == before[0]);
        } else {
            assert(owed(distributed, candidates) == before);
        }
    } else {
        assert(candidates.last() == candidates[0]);
        assert(owed(distributed, candidates.drop_last()) == Seq::<(DistributionAccount, u128)>::empty());
        assert(owed(distributed, candidates) == Seq::<(DistributionAccount, u128)>::empty().push(
            (candidates[0].0, amount),
        ));
    }
}

/// A distribution pays each recipient what its allocation leaves after what it already
/// received, never more: every recipient listed is owed exactly its allocation minus what was
/// recorded as distributed to it, and none with a distribution in progress is listed. The
/// solver, when it received part of its allocation and has nothing in progress, comes first
/// and is owed the rest of it.
pub proof fn lemma_distributions_complete_allocations(contract: AuroraLaunchpadContract)
    ensures
        ({
            let pending = contract.pending_distributions();
            let all = recipients(contract.config.distribution_proportions);
            let distributed = contract.distributed_accounts.view();
            forall|k: int|
                0 <= k < pending.len() ==> {
                    let entry = #[trigger] pending[k];
                    &&& exists|j: int|
                        0 <= j < all.len() && all[j].0 == entry.0 && entry.1 + distributed_to(
                            distributed,
                            entry.0,
                        ) == all[j].1
                    &&& !(distributed.contains_key(entry.0.key())
                        && distributed[entry.0.key()].1)
                }
        }),
        ({
            let pending = contract.pending_distributions();
            let solver = contract.config.distribution_proportions.solver_account_id;
            let allocation = contract.config.distribution_proportions.solver_allocation;
            let distributed = contract.distributed_accounts.view();
            distributed.contains_key(solver.key()) && distributed[solver.key()].0 < allocation
                && !distributed[solver.key()].1 ==> pending.len() > 0 && pending[0] == (
                solver,
                (allocation - distributed[solver.key()].0) as u128,
            )
        }),
{
    let distributed = contract.distributed_accounts.view();
    let all = recipients(contract.config.distribution_proportions);
    let listed = owed(distributed, all);
    let pending = contract.pending_distributions();
    lemma_owed_entries(distributed, all);
    assert forall|k: int| 0 <= k < pending.len() implies {
        let entry = #[trigger] pending[k];
        &&& exists|j: int|
            0 <= j < all.len() && all[j].0 == entry.0 && entry.1 + distributed_to(
                distributed,
                entry.0,
            ) == all[j].1
        &&& !(distributed.contains_key(entry.0.key()) && distributed[entry.0.key()].1)
    } by {
        assert(pending[k] == listed[k]);
    }
    let solver = contract.config.distribution_proportions.solver_account_id;
    let allocation = contract.config.distribution_proportions.solver_allocation;
    assert(all[0] == (solver, allocation));
    if distributed.contains_key(solver.key()) && distributed[solver.key()].0 < allocation
        && !distributed[solver.key()].1 {
        lemma_owed_first(distributed, all, (allocation - distributed[solver.key()].0) as u128);
        assert(pending[0] == listed[0]);
    }
}

} // verus!
