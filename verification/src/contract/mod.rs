//! The state of a launchpad and the decisions it makes: its status over time, deposits,
//! withdrawals, claims, distributions and administration. Token transfers and the results of
//! other contracts are handled by the caller, which hands the outcomes back as plain values.
use crate::account_map::{lemma_total_by_empty, AccountMap};
use crate::discount::state::DiscountState;
use crate::types::{
    DepositsDistribution, DistributionAccount, IntentsAccount, InvestmentAmount, LaunchpadConfig,
    LaunchpadStatus, Mechanics, WithdrawnUnsoldTokens,
};
use vstd::prelude::*;

pub mod admin;
pub mod claim;
pub mod deposit;
pub mod distribute;
pub mod results;
pub mod totals;
pub mod view;
pub mod withdraw;

verus! {

/// The state of a launchpad.
pub struct AuroraLaunchpadContract {
    /// Launchpad configuration.
    pub config: LaunchpadConfig,
    /// Number of unique participants in the launchpad.
    pub participants_count: u64,
    /// The total number of deposit tokens received from the users.
    pub total_deposited: u128,
    /// The total number of sale tokens sold during the launchpad.
    pub total_sold_tokens: u128,
    /// User investments in the launchpad.
    pub investments: AccountMap<IntentsAccount, InvestmentAmount>,
    /// Vesting users state with claimed amounts.
    pub vestings: AccountMap<IntentsAccount, u128>,
    /// Individual vesting claimed amounts for each stakeholder.
    pub individual_vesting_claimed: AccountMap<DistributionAccount, u128>,
    /// Whether the sale token was transferred to the contract.
    pub is_sale_token_set: bool,
    /// Whether the launchpad is locked.
    pub is_locked: bool,
    /// Already distributed accounts with their distributed amounts and whether a distribution
    /// to them is in progress.
    pub distributed_accounts: AccountMap<DistributionAccount, (u128, bool)>,
    /// Accounts that have a withdrawal in progress.
    pub locked_withdraw: AccountMap<IntentsAccount, ()>,
    /// Deposits distributed to the solver and fee accounts.
    pub deposits_distribution: DepositsDistribution,
    /// The unsold tokens withdrawn by the admin and the status of the withdrawal.
    pub withdrawn_unsold_tokens: WithdrawnUnsoldTokens,
    /// The state of the discount phases, when the sale has any.
    pub discount_state: Option<DiscountState>,
}

impl AuroraLaunchpadContract {
    /// The status of the launchpad at time `now`.
    pub open spec fn status_at(&self, now: u64) -> LaunchpadStatus {
        if !self.is_sale_token_set {
            LaunchpadStatus::NotInitialized
        } else if self.is_locked {
            LaunchpadStatus::Locked
        } else if now < self.config.start_date {
            LaunchpadStatus::NotStarted
        } else if now < self.config.end_date {
            if self.total_sold_tokens >= self.config.sale_amount
                && self.config.mechanics is FixedPrice {
                if self.config.tge is Some {
                    LaunchpadStatus::PreTGE
                } else {
                    LaunchpadStatus::Success
                }
            } else {
                LaunchpadStatus::Ongoing
            }
        } else if self.total_deposited >= self.config.soft_cap {
            match self.config.tge {
                Some(tge) => if now < tge {
                    LaunchpadStatus::PreTGE
                } else {
                    LaunchpadStatus::Success
                },
                None => LaunchpadStatus::Success,
            }
        } else {
            LaunchpadStatus::Failed
        }
    }

    /// Creates a launchpad with the given configuration: nothing deposited or sold, the sale
    /// token not yet received, and a fresh state for the discount phases, if any.
    pub fn new(config: LaunchpadConfig) -> (r: Self)
        ensures
            r.config == config,
            r.participants_count == 0,
            r.total_deposited == 0,
            r.total_sold_tokens == 0,
            r.investments.view() == Map::<(bool, Seq<char>), InvestmentAmount>::empty(),
            r.vestings.view() == Map::<(bool, Seq<char>), u128>::empty(),
            r.individual_vesting_claimed.view() == Map::<(bool, Seq<char>), u128>::empty(),
            !r.is_sale_token_set,
            !r.is_locked,
            r.distributed_accounts.view() == Map::<(bool, Seq<char>), (u128, bool)>::empty(),
            r.locked_withdraw.view() == Map::<(bool, Seq<char>), ()>::empty(),
            r.deposits_distribution == (DepositsDistribution {
                solver_amount: 0,
                fee_amount: 0,
                is_ongoing: false,
            }),
            r.withdrawn_unsold_tokens == (WithdrawnUnsoldTokens { amount: 0, is_ongoing: false }),
            r.totals_balanced(),
            r.participants_counted(),
            match config.discounts {
                Some(params) => r.discount_state matches Some(s) && s@.phases
                    == crate::discount::ledger::initial_views(params.phases@) && s@.linked_phases
                    == crate::discount::ledger::initial_links(params.phases@),
                None => r.discount_state is None,
            },
    {
        let discount_state = match &config.discounts {
            Some(params) => Some(DiscountState::init(params)),
            None => None,
        };
        let investments = AccountMap::new();
        proof {
            lemma_total_by_empty(investments, crate::contract::totals::amount_part());
            lemma_total_by_empty(investments, crate::contract::totals::weight_part());
        }
        AuroraLaunchpadContract {
            config,
            participants_count: 0,
            total_deposited: 0,
            total_sold_tokens: 0,
            investments,
            vestings: AccountMap::new(),
            individual_vesting_claimed: AccountMap::new(),
            is_sale_token_set: false,
            is_locked: false,
            distributed_accounts: AccountMap::new(),
            locked_withdraw: AccountMap::new(),
            deposits_distribution: DepositsDistribution {
                solver_amount: 0,
                fee_amount: 0,
                is_ongoing: false,
            },
            withdrawn_unsold_tokens: WithdrawnUnsoldTokens { amount: 0, is_ongoing: false },
            discount_state,
        }
    }

    /// Returns the status of the launchpad at time `now`.
    pub fn get_status(&self, now: u64) -> (r: LaunchpadStatus)
        ensures
            r == self.status_at(now),
    {
        if !self.is_sale_token_set {
            return LaunchpadStatus::NotInitialized;
        }
        if self.is_locked {
            return LaunchpadStatus::Locked;
        }
        if now < self.config.start_date {
            LaunchpadStatus::NotStarted
        } else if now >= self.config.start_date && now < self.config.end_date {
            if self.total_sold_tokens >= self.config.sale_amount
                && self.config.mechanics.is_fixed_price_mechanics() {
                // The TGE always comes after the end of the sale, so a TGE alone means that
                // it is still ahead.
                if self.config.tge.is_some() {
                    LaunchpadStatus::PreTGE
                } else {
                    LaunchpadStatus::Success
                }
            } else {
                LaunchpadStatus::Ongoing
            }
        } else if now >= self.config.end_date && self.total_deposited >= self.config.soft_cap {
            match self.config.tge {
                Some(tge) => if now < tge {
                    LaunchpadStatus::PreTGE
                } else {
                    LaunchpadStatus::Success
                },
                None => LaunchpadStatus::Success,
            }
        } else {
            LaunchpadStatus::Failed
        }
    }

    /// Returns whether the launchpad is not initialized at time `now`.
    pub fn is_not_initialized(&self, now: u64) -> (r: bool)
        ensures
            r == (self.status_at(now) == LaunchpadStatus::NotInitialized),
    {
        self.get_status(now) == LaunchpadStatus::NotInitialized
    }

    /// Returns whether the sale has not started yet at time `now`.
    pub fn is_not_started(&self, now: u64) -> (r: bool)
        ensures
            r == (self.status_at(now) == LaunchpadStatus::NotStarted),
    {
        self.get_status(now) == LaunchpadStatus::NotStarted
    }

    /// Returns whether the sale is ongoing at time `now`.
    pub fn is_ongoing(&self, now: u64) -> (r: bool)
        ensures
            r == (self.status_at(now) == LaunchpadStatus::Ongoing),
    {
        self.get_status(now) == LaunchpadStatus::Ongoing
    }

    /// Returns whether the launchpad is in the pre-TGE period at time `now`.
    pub fn is_pre_tge_period(&self, now: u64) -> (r: bool)
        ensures
            r == (self.status_at(now) == LaunchpadStatus::PreTGE),
    {
        self.get_status(now) == LaunchpadStatus::PreTGE
    }

    /// Returns whether the sale succeeded at time `now`.
    pub fn is_success(&self, now: u64) -> (r: bool)
        ensures
            r == (self.status_at(now) == LaunchpadStatus::Success),
    {
        self.get_status(now) == LaunchpadStatus::Success
    }

    /// Returns whether the sale failed at time `now`.
    pub fn is_failed(&self, now: u64) -> (r: bool)
        ensures
            r == (self.status_at(now) == LaunchpadStatus::Failed),
    {
        self.get_status(now) == LaunchpadStatus::Failed
    }

    /// Returns whether the launchpad is locked at time `now`.
    pub fn is_locked(&self, now: u64) -> (r: bool)
        ensures
            r == (self.status_at(now) == LaunchpadStatus::Locked),
    {
        self.get_status(now) == LaunchpadStatus::Locked
    }
}

} // verus!

verus! {

/// Once the sale has ended, a final status does not change as time goes on: a launchpad that
/// succeeded keeps succeeding and one that failed keeps failing.
pub proof fn lemma_final_status_is_stable(contract: AuroraLaunchpadContract, t1: u64, t2: u64)
    requires
        contract.config.end_date <= t1 <= t2,
        contract.status_at(t1) == LaunchpadStatus::Success || contract.status_at(t1)
            == LaunchpadStatus::Failed,
    ensures
        contract.status_at(t2) == contract.status_at(t1),
{
}

/// After the end of the sale an initialized, unlocked launchpad is waiting for its TGE,
/// succeeded, or failed: it is never ongoing again.
pub proof fn lemma_ended_sale_is_settled(contract: AuroraLaunchpadContract, now: u64)
    requires
        contract.config.start_date <= contract.config.end_date,
        contract.config.end_date <= now,
        contract.is_sale_token_set,
        !contract.is_locked,
    ensures
        contract.status_at(now) == LaunchpadStatus::PreTGE || contract.status_at(now)
            == LaunchpadStatus::Success || contract.status_at(now) == LaunchpadStatus::Failed,
{
}

/// After the end of the sale, an initialized, unlocked launchpad succeeded (or waits for its
/// TGE) exactly when the deposits reached the soft cap; otherwise it failed.
pub proof fn lemma_soft_cap_decides(contract: AuroraLaunchpadContract, now: u64)
    requires
        contract.config.start_date <= contract.config.end_date,
        contract.config.end_date <= now,
        contract.is_sale_token_set,
        !contract.is_locked,
    ensures
        (contract.status_at(now) == LaunchpadStatus::Success || contract.status_at(now)
            == LaunchpadStatus::PreTGE) <==> contract.total_deposited >= contract.config.soft_cap,
        contract.status_at(now) == LaunchpadStatus::Failed <==> contract.total_deposited
            < contract.config.soft_cap,
{
}

} // verus!
