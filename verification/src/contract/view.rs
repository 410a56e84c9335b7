//! Read-only views of a launchpad.
use crate::account_map::AccountKey;
use crate::contract::AuroraLaunchpadContract;
use crate::types::{
    DepositToken, DistributionProportions, IntentsAccount, LaunchpadConfig, Mechanics,
    VestingSchedule,
};
use vstd::prelude::*;

verus! {

impl AuroraLaunchpadContract {
    /// Returns the configuration.
    pub fn get_config(&self) -> (r: &LaunchpadConfig)
        ensures
            *r == self.config,
    {
        &self.config
    }

    /// Returns the number of distinct investors.
    pub fn get_participants_count(&self) -> (r: u64)
        ensures
            r == self.participants_count,
    {
        self.participants_count
    }

    /// Returns the total of the deposits.
    pub fn get_total_deposited(&self) -> (r: u128)
        ensures
            r == self.total_deposited,
    {
        self.total_deposited
    }

    /// Returns the amount deposited by `account`, if it invested.
    pub fn get_investments(&self, account: &IntentsAccount) -> (r: Option<u128>)
        ensures
            r == (if self.investments.view().contains_key(account.key()) {
                Some(self.investments.view()[account.key()].amount)
            } else {
                None
            }),
    {
        match self.investments.get(account) {
            Some(i) => Some(i.amount),
            None => None,
        }
    }

    /// Returns how the sale tokens are distributed.
    pub fn get_distribution_proportions(&self) -> (r: &DistributionProportions)
        ensures
            *r == self.config.distribution_proportions,
    {
        &self.config.distribution_proportions
    }

    /// Returns the start of the sale.
    pub fn get_start_date(&self) -> (r: u64)
        ensures
            r == self.config.start_date,
    {
        self.config.start_date
    }

    /// Returns the end of the sale.
    pub fn get_end_date(&self) -> (r: u64)
        ensures
            r == self.config.end_date,
    {
        self.config.end_date
    }

    /// Returns the deposits needed for the sale to succeed.
    pub fn get_soft_cap(&self) -> (r: u128)
        ensures
            r == self.config.soft_cap,
    {
        self.config.soft_cap
    }

    /// Returns the sale tokens for sale: the most that can be sold at a fixed price, all that
    /// is shared with price discovery.
    pub fn get_sale_amount(&self) -> (r: u128)
        ensures
            r == self.config.sale_amount,
    {
        self.config.sale_amount
    }

    /// Returns the sale tokens sold so far.
    pub fn get_sold_amount(&self) -> (r: u128)
        ensures
            r == self.total_sold_tokens,
    {
        self.total_sold_tokens
    }

    /// Returns the account of the sale token.
    pub fn get_sale_token_account_id(&self) -> (r: &String)
        ensures
            *r == self.config.sale_token_account_id,
    {
        &self.config.sale_token_account_id
    }

    /// Returns the total of sale tokens the launchpad holds.
    pub fn get_total_sale_amount(&self) -> (r: u128)
        ensures
            r == self.config.total_sale_amount,
    {
        self.config.total_sale_amount
    }

    /// Returns the allocation of the solver.
    pub fn get_solver_allocation(&self) -> (r: u128)
        ensures
            r == self.config.distribution_proportions.solver_allocation,
    {
        self.config.distribution_proportions.solver_allocation
    }

    /// Returns the mechanics of the sale.
    pub fn get_mechanics(&self) -> (r: Mechanics)
        ensures
            r == self.config.mechanics,
    {
        self.config.mechanics
    }

    /// Returns the vesting schedule of the sale, if any.
    pub fn get_vesting_schedule(&self) -> (r: Option<VestingSchedule>)
        ensures
            r == self.config.vesting_schedule,
    {
        self.config.vesting_schedule
    }

    /// Returns the deposit token.
    pub fn get_deposit_token_account_id(&self) -> (r: &DepositToken)
        ensures
            *r == self.config.deposit_token,
    {
        &self.config.deposit_token
    }

    /// Returns the version of the launchpad.
    pub fn get_version() -> (r: &'static str)
        ensures
            r@ == "0.1.0"@,
    {
        "0.1.0"
    }
}

} // verus!
