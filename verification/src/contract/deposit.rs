//! Receiving tokens: the sale token that initializes the launchpad, and deposits.
use crate::account_map::AccountKey;
use crate::contract::results::{mt_used, read_mt_result, PromiseOutcome};
use crate::contract::AuroraLaunchpadContract;
use crate::discount::ledger::credit_all;
use crate::discount::state::DiscountState;
use crate::discount::distribution::lemma_deposit_distribution_never_oversells;
use crate::mechanics::deposit::{deposit, deposit_outcome, lemma_deposit_within_sale_amount};
use crate::types::{
    DepositDistribution, DepositToken, DistributionView, IntentsAccount, InvestmentAmount,
    LaunchpadStatus, Mechanics,
};
use crate::utils::{message_accounts, parse_accounts, valid_account_id};
use vstd::prelude::*;

verus! {

/// The discount state after recording a distribution of `account`: with a fixed price, the
/// discounted weights are credited to their phases; otherwise nothing changes.
pub open spec fn discounts_recorded(
    before: Option<DiscountState>,
    after: Option<DiscountState>,
    account: IntentsAccount,
    distribution: DistributionView,
    mechanics: Mechanics,
) -> bool {
    match before {
        None => after is None,
        Some(b) => after matches Some(a) && a@.linked_phases == b@.linked_phases && a@.phases
            == match (mechanics, distribution) {
            (
                Mechanics::FixedPrice { deposit_token, sale_token },
                DistributionView::WithDiscount { phase_weights, .. },
            ) => credit_all(b@.phases, account, phase_weights, deposit_token, sale_token),
            _ => b@.phases,
        },
    }
}

impl AuroraLaunchpadContract {
    /// Everything but the sale figures (participants, totals, investments and discount state)
    /// is the same in `self` and `other`.
    pub open spec fn same_settings(&self, other: &Self) -> bool {
        &&& self.config == other.config
        &&& self.vestings.view() == other.vestings.view()
        &&& self.individual_vesting_claimed.view() == other.individual_vesting_claimed.view()
        &&& self.is_sale_token_set == other.is_sale_token_set
        &&& self.is_locked == other.is_locked
        &&& self.distributed_accounts.view() == other.distributed_accounts.view()
        &&& self.locked_withdraw.view() == other.locked_withdraw.view()
        &&& self.deposits_distribution == other.deposits_distribution
        &&& self.withdrawn_unsold_tokens == other.withdrawn_unsold_tokens
    }

    /// The investment recorded for `account`, or an empty one.
    pub open spec fn investment_of(&self, account: IntentsAccount) -> InvestmentAmount {
        if self.investments.view().contains_key(account.key()) {
            self.investments.view()[account.key()]
        } else {
            InvestmentAmount { amount: 0, weight: 0, claimed: 0 }
        }
    }

    /// How a deposit of `deposit` by `account` at `now` is distributed.
    pub open spec fn distribution_for(&self, account: IntentsAccount, deposit: u128, now: u64)
        -> DistributionView {
        match self.discount_state {
            Some(state) => state@.deposit_distribution(
                account,
                deposit,
                now,
                self.config,
                self.total_sold_tokens,
            ),
            None => DistributionView::WithoutDiscount(deposit),
        }
    }

    /// Receives the sale tokens: the launchpad is initialized when exactly the total sale
    /// amount arrives. Returns the amount to refund (none).
    pub fn init_contract(&mut self, amount: u128) -> (r: Result<u128, &'static str>)
        ensures
            old(self).is_sale_token_set ==> r == Err::<u128, &'static str>(
                "The contract is already initialized",
            ) && *final(self) == *old(self),
            !old(self).is_sale_token_set && amount != old(self).config.total_sale_amount ==> r
                == Err::<u128, &'static str>("Wrong total sale amount") && *final(self) == *old(
                self,
            ),
            !old(self).is_sale_token_set && amount == old(self).config.total_sale_amount ==> r
                == Ok::<u128, &'static str>(0) && final(self).is_sale_token_set && *final(self)
                == (AuroraLaunchpadContract { is_sale_token_set: true, ..*old(self) }),
    {
        if self.is_sale_token_set {
            return Err("The contract is already initialized");
        }
        if amount != self.config.total_sale_amount {
            return Err("Wrong total sale amount");
        }
        self.is_sale_token_set = true;
        Ok(0)
    }

    /// Returns the part of `amount` that a NEP-245 transfer did not use, as the one-element
    /// list of refunds of a NEP-245 transfer: all of it when the transfer failed, none when
    /// its result is too long, does not decode or does not hold exactly one amount, since the
    /// tokens may have been delivered.
    pub fn finish_mt_refund(&self, amount: u128, outcome: &PromiseOutcome) -> (r: Vec<u128>)
        ensures
            r@ == seq![amount.saturating_sub(mt_used(*outcome, amount))],
    {
        let used = read_mt_result(outcome, amount);
        let mut refunds: Vec<u128> = Vec::new();
        refunds.push(amount.saturating_sub(used));
        refunds
    }

    /// Returns whether `predecessor_account_id` is the NEP-141 deposit token.
    pub fn is_nep141_deposit_token(&self, predecessor_account_id: &String) -> (r: bool)
        ensures
            r == (self.config.deposit_token matches DepositToken::Nep141(a) && a@
                == predecessor_account_id@),
    {
        match &self.config.deposit_token {
            DepositToken::Nep141(account_id) => *account_id == *predecessor_account_id,
            DepositToken::Nep245(_, _) => false,
        }
    }

    /// Returns whether `predecessor_account_id` and the single token id are the NEP-245
    /// deposit token; more or fewer than one token id is an error.
    pub fn is_nep245_deposit_token(&self, predecessor_account_id: &String, token_ids: &Vec<String>)
        -> (r: Result<bool, &'static str>)
        ensures
            token_ids.len() != 1 ==> r == Err::<bool, &'static str>(
                "Only one token_id is allowed for deposit",
            ),
            token_ids.len() == 1 ==> r == Ok::<bool, &'static str>(
                self.config.deposit_token matches DepositToken::Nep245(a, t) && a@
                    == predecessor_account_id@ && t@ == token_ids@[0]@,
            ),
    {
        if token_ids.len() != 1 {
            return Err("Only one token_id is allowed for deposit");
        }
        match &self.config.deposit_token {
            DepositToken::Nep141(_) => Ok(false),
            DepositToken::Nep245(account_id, token_id) => Ok(
                *account_id == *predecessor_account_id && *token_id == token_ids[0],
            ),
        }
    }

    /// Returns how a deposit of `deposit` by `account` at `now` is distributed between the
    /// discount phases, the public sale and a refund.
    pub fn get_deposit_distribution(&self, account: &IntentsAccount, deposit: u128, now: u64) -> (r:
        DepositDistribution)
        requires
            self.config.mechanics.valid(),
        ensures
            r@ == self.distribution_for(*account, deposit, now),
    {
        match &self.discount_state {
            Some(state) => state.get_deposit_distribution(
                account,
                deposit,
                now,
                &self.config,
                self.total_sold_tokens,
            ),
            None => DepositDistribution::WithoutDiscount(deposit),
        }
    }

    /// Records a distribution of `account` in the discount state. Only a fixed-price sale
    /// keeps phase limits, so price discovery changes nothing.
    pub fn update_discount_state(
        &mut self,
        account: &IntentsAccount,
        distribution: &DepositDistribution,
        mechanics: Mechanics,
    )
        requires
            mechanics.valid(),
        ensures
            discounts_recorded(
                old(self).discount_state,
                final(self).discount_state,
                *account,
                distribution@,
                mechanics,
            ),
            final(self).same_settings(old(self)),
            final(self).participants_count == old(self).participants_count,
            final(self).total_deposited == old(self).total_deposited,
            final(self).total_sold_tokens == old(self).total_sold_tokens,
            final(self).investments.view() == old(self).investments.view(),
    {
        if let Mechanics::FixedPrice { deposit_token, sale_token } = mechanics {
            if let Some(state) = &mut self.discount_state {
                state.update(account, distribution, deposit_token, sale_token);
            }
        }
    }

    /// `self` is the state after a deposit of `amount` by `account` at `now` on `old` that
    /// returned `r`: the deposit is distributed over the discount phases, credited to the
    /// account's investment and to the totals, and recorded in the discount state, and a new
    /// investor is counted; on an error nothing changes.
    pub open spec fn deposit_applied(
        &self,
        old: AuroraLaunchpadContract,
        account: IntentsAccount,
        amount: u128,
        now: u64,
        r: Result<u128, &'static str>,
    ) -> bool {
        let distribution = old.distribution_for(account, amount, now);
        match deposit_outcome(
            old.investment_of(account),
            amount,
            old.total_deposited,
            old.total_sold_tokens,
            old.config,
            distribution,
        ) {
            Err(e) => r == Err::<u128, &'static str>(e) && *self == old,
            Ok((investment, total_deposited, total_sold_tokens, refund)) => {
                &&& r == Ok::<u128, &'static str>(refund)
                &&& self.same_settings(&old)
                &&& self.investments.view() == old.investments.view().insert(
                    account.key(),
                    investment,
                )
                &&& self.total_deposited == total_deposited
                &&& self.total_sold_tokens == total_sold_tokens
                &&& self.participants_count == old.participants_count + if old.investments.view().contains_key(
                    account.key(),
                ) {
                    0int
                } else {
                    1int
                }
                &&& discounts_recorded(
                    old.discount_state,
                    self.discount_state,
                    account,
                    distribution,
                    old.config.mechanics,
                )
            },
        }
    }

    /// Applies a deposit of `amount` by `account` at time `now`: the deposit is distributed
    /// over the discount phases, credited to the account's investment and to the totals, and
    /// recorded in the discount state; a new investor is counted. Returns the part of the
    /// deposit to refund. On an error nothing changes.
    pub fn deposit_for(&mut self, account: IntentsAccount, amount: u128, now: u64) -> (r: Result<
        u128,
        &'static str,
    >)
        requires
            old(self).config.mechanics.valid(),
            old(self).participants_count < u64::MAX,
        ensures
            final(self).deposit_applied(*old(self), account, amount, now, r),
            old(self).config.mechanics is FixedPrice && old(self).total_sold_tokens <= old(
                self,
            ).config.sale_amount ==> final(self).total_sold_tokens <= final(self).config.sale_amount,
    {
        let distribution = self.get_deposit_distribution(&account, amount, now);
        let (mut investment, is_new) = match self.investments.get(&account) {
            Some(existing) => (existing, false),
            None => (InvestmentAmount::new(), true),
        };
        let mut total_deposited = self.total_deposited;
        let mut total_sold_tokens = self.total_sold_tokens;
        let refund = deposit(
            &mut investment,
            amount,
            &mut total_deposited,
            &mut total_sold_tokens,
            &self.config,
            &distribution,
        )?;
        self.investments.insert(account.copy_key(), investment);
        if is_new {
            self.participants_count = self.participants_count + 1;
        }
        self.total_deposited = total_deposited;
        self.total_sold_tokens = total_sold_tokens;
        let mechanics = self.config.mechanics;
        self.update_discount_state(&account, &distribution, mechanics);
        proof {
            if old(self).config.mechanics is FixedPrice && old(self).total_sold_tokens <= old(
                self,
            ).config.sale_amount {
                assert(self.deposit_applied(*old(self), account, amount, now, Ok(refund)));
                lemma_deposit_never_oversells(*old(self), *self, account, amount, now, Ok(refund));
            }
        }
        Ok(refund)
    }

    /// Takes a deposit of `amount` with the message `msg` at time `now`, while the sale is
    /// ongoing. The message names the intents account (after an optional `near_account:`,
    /// which must be a valid account id). Returns the part of the deposit to refund. On an
    /// error nothing changes.
    pub fn handle_deposit(&mut self, amount: u128, msg: &str, now: u64) -> (r: Result<
        u128,
        &'static str,
    >)
        requires
            old(self).config.mechanics.valid(),
            old(self).participants_count < u64::MAX,
        ensures
            old(self).status_at(now) != LaunchpadStatus::Ongoing ==> r == Err::<u128, &'static str>(
                "Launchpad is not ongoing",
            ) && *final(self) == *old(self),
            old(self).status_at(now) == LaunchpadStatus::Ongoing ==> match message_accounts(msg@) {
                (Some(near), intent) => if valid_account_id(near) {
                    exists|account: IntentsAccount|
                        account.0@ == intent && #[trigger] final(self).deposit_applied(
                            *old(self),
                            account,
                            amount,
                            now,
                            r,
                        )
                } else {
                    r == Err::<u128, &'static str>("Invalid NEAR account_id") && *final(self)
                        == *old(self)
                },
                (None, intent) => exists|account: IntentsAccount|
                    account.0@ == intent && #[trigger] final(self).deposit_applied(
                        *old(self),
                        account,
                        amount,
                        now,
                        r,
                    ),
            },
    {
        if !self.is_ongoing(now) {
            return Err("Launchpad is not ongoing");
        }
        let (_near_account_id, intent_account) = parse_accounts(msg)?;
        let account = IntentsAccount(intent_account.0);
        let ghost witness = account;
        let r = self.deposit_for(account, amount, now);
        assert(final(self).deposit_applied(*old(self), witness, amount, now, r));
        r
    }
}

/// A fixed-price launchpad never sells more than its sale amount: a deposit keeps the total
/// sold tokens within it.
pub proof fn lemma_deposit_never_oversells(
    before: AuroraLaunchpadContract,
    after: AuroraLaunchpadContract,
    account: IntentsAccount,
    amount: u128,
    now: u64,
    r: Result<u128, &'static str>,
)
    requires
        before.config.mechanics is FixedPrice,
        before.config.mechanics.valid(),
        before.total_sold_tokens <= before.config.sale_amount,
        after.deposit_applied(before, account, amount, now, r),
    ensures
        after.total_sold_tokens <= after.config.sale_amount,
{
    if let Some(state) = before.discount_state {
        lemma_deposit_distribution_never_oversells(
            state@,
            account,
            amount,
            now,
            before.config,
            before.total_sold_tokens,
        );
    }
    lemma_deposit_within_sale_amount(
        before.investment_of(account),
        amount,
        before.total_deposited,
        before.total_sold_tokens,
        before.config,
        before.distribution_for(account, amount, now),
    );
}

} // verus!
