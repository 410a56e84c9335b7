//! Administration: locking, the TGE, withdrawals of sale and deposited tokens by the admin,
//! and the whitelists of the discount phases.
use crate::contract::results::{read_reported_amount, reported_amount, PromiseOutcome};
use crate::contract::AuroraLaunchpadContract;
use crate::discount::params::holds_account;
use crate::discount::state::{phase_state, DiscountStatePerPhase, PhaseView};
use crate::discount::ledger::find_phase_index;
use crate::types::{IntentsAccount, LaunchpadStatus, Mechanics};
use vstd::prelude::*;

verus! {

/// The tokens the admin can withdraw.
#[derive(Debug, Clone, Copy, PartialEq, Eq, Structural)]
pub enum WithdrawalToken {
    /// The deposited tokens.
    Deposit,
    /// The sale tokens.
    Sale,
}

/// What an admin withdrawal transfers: `amount` (the whole balance when absent), and whether
/// it takes unsold sale tokens, whose withdrawal is recorded.
#[derive(Debug, Clone, Copy, PartialEq, Eq)]
pub struct AdminWithdrawal {
    pub token: WithdrawalToken,
    pub amount: Option<u128>,
    pub is_unsold: bool,
}

/// Why a whitelist could not be changed.
#[derive(Debug, Clone, Copy, PartialEq, Eq, Structural)]
pub enum WhitelistError {
    /// The sale has no discount phase with the id.
    PhaseNotFound,
    /// The phase has no whitelist.
    NoWhitelist,
}

impl AuroraLaunchpadContract {
    /// Everything but the lock flag is the same in `self` and `other`.
    pub open spec fn same_except_lock_flag(&self, other: &Self) -> bool {
        &&& self.config == other.config
        &&& self.participants_count == other.participants_count
        &&& self.total_deposited == other.total_deposited
        &&& self.total_sold_tokens == other.total_sold_tokens
        &&& self.investments.view() == other.investments.view()
        &&& self.vestings.view() == other.vestings.view()
        &&& self.individual_vesting_claimed.view() == other.individual_vesting_claimed.view()
        &&& self.is_sale_token_set == other.is_sale_token_set
        &&& self.distributed_accounts.view() == other.distributed_accounts.view()
        &&& self.locked_withdraw.view() == other.locked_withdraw.view()
        &&& self.deposits_distribution == other.deposits_distribution
        &&& self.withdrawn_unsold_tokens == other.withdrawn_unsold_tokens
        &&& self.discount_state == other.discount_state
    }

    /// `self` is the state after locking `old` at `now`, which returned `r`: only before the
    /// sale, during it, or before the TGE, and then nothing but the lock flag changes.
    pub open spec fn lock_applied(
        &self,
        old: AuroraLaunchpadContract,
        now: u64,
        r: Result<(), &'static str>,
    ) -> bool {
        let status = old.status_at(now);
        if status == LaunchpadStatus::NotStarted || status == LaunchpadStatus::Ongoing || status
            == LaunchpadStatus::PreTGE {
            r is Ok && self.is_locked && self.same_except_lock_flag(&old)
        } else {
            r == Err::<(), &'static str>(
                "The contract can only be locked when status is NotStarted, Ongoing, or PreTGE",
            ) && *self == old
        }
    }

    /// Locks the launchpad at `now`; only before the sale, during it, or before the TGE.
    pub fn lock(&mut self, now: u64) -> (r: Result<(), &'static str>)
        ensures
            final(self).lock_applied(*old(self), now, r),
    {
        let status = self.get_status(now);
        if !(status == LaunchpadStatus::NotStarted || status == LaunchpadStatus::Ongoing || status
            == LaunchpadStatus::PreTGE) {
            return Err(
                "The contract can only be locked when status is NotStarted, Ongoing, or PreTGE",
            );
        }
        self.is_locked = true;
        Ok(())
    }

    /// `self` is the state after unlocking `old` at `now`, which returned `r`: only a locked
    /// launchpad, and then nothing but the lock flag changes.
    pub open spec fn unlock_applied(
        &self,
        old: AuroraLaunchpadContract,
        now: u64,
        r: Result<(), &'static str>,
    ) -> bool {
        if old.status_at(now) == LaunchpadStatus::Locked {
            r is Ok && !self.is_locked && self.same_except_lock_flag(&old)
        } else {
            r == Err::<(), &'static str>("The contract is not locked") && *self == old
        }
    }

    /// Unlocks a locked launchpad.
    pub fn unlock(&mut self, now: u64) -> (r: Result<(), &'static str>)
        ensures
            final(self).unlock_applied(*old(self), now, r),
    {
        if self.get_status(now) != LaunchpadStatus::Locked {
            return Err("The contract is not locked");
        }
        self.is_locked = false;
        Ok(())
    }

    /// Sets the TGE to `tge_nanos` (nanoseconds since the epoch, absent when the date is out
    /// of range) at `now`: not once the sale succeeded or failed, and only to a moment after
    /// the end of the sale and after `now`.
    pub fn update_tge(&mut self, tge_nanos: Option<i64>, now: u64) -> (r: Result<(), &'static str>)
        ensures
            ({
                let status = old(self).status_at(now);
                if status == LaunchpadStatus::Success || status == LaunchpadStatus::Failed {
                    r == Err::<(), &'static str>("Wrong status of the contract for the TGE update")
                        && *final(self) == *old(self)
                } else {
                    match tge_nanos {
                        None => r == Err::<(), &'static str>("Provided TGE is out of range")
                            && *final(self) == *old(self),
                        Some(t) => if t < 0 {
                            r == Err::<(), &'static str>(
                                "Negative TGE timestamp value is not allowed",
                            ) && *final(self) == *old(self)
                        } else if t <= old(self).config.end_date || t <= now {
                            r == Err::<(), &'static str>(
                                "TGE must be after the end of the sale and in the future",
                            ) && *final(self) == *old(self)
                        } else {
                            &&& r is Ok
                            &&& final(self).config == (crate::types::LaunchpadConfig {
                                tge: Some(t as u64),
                                ..old(self).config
                            })
                            &&& final(self).same_except_config(old(self))
                        },
                    }
                }
            }),
    {
        let status = self.get_status(now);
        // The TGE cannot change once the sale succeeded or failed.
        if status == LaunchpadStatus::Success || status == LaunchpadStatus::Failed {
            return Err("Wrong status of the contract for the TGE update");
        }
        let nanos = match tge_nanos {
            Some(t) => t,
            None => return Err("Provided TGE is out of range"),
        };
        if nanos < 0 {
            return Err("Negative TGE timestamp value is not allowed");
        }
        let tge = nanos as u64;
        if !(tge > self.config.end_date && tge > now) {
            return Err("TGE must be after the end of the sale and in the future");
        }
        self.config.tge = Some(tge);
        Ok(())
    }

    /// Everything but the configuration is the same in `self` and `other`.
    pub open spec fn same_except_config(&self, other: &Self) -> bool {
        &&& self.participants_count == other.participants_count
        &&& self.total_deposited == other.total_deposited
        &&& self.total_sold_tokens == other.total_sold_tokens
        &&& self.investments.view() == other.investments.view()
        &&& self.vestings.view() == other.vestings.view()
        &&& self.individual_vesting_claimed.view() == other.individual_vesting_claimed.view()
        &&& self.is_sale_token_set == other.is_sale_token_set
        &&& self.is_locked == other.is_locked
        &&& self.distributed_accounts.view() == other.distributed_accounts.view()
        &&& self.locked_withdraw.view() == other.locked_withdraw.view()
        &&& self.deposits_distribution == other.deposits_distribution
        &&& self.withdrawn_unsold_tokens == other.withdrawn_unsold_tokens
        &&& self.discount_state == other.discount_state
    }

    /// Returns the TGE in nanoseconds since the epoch, when there is one that fits in `i64`.
    pub fn get_tge(&self) -> (r: Option<i64>)
        ensures
            r == match self.config.tge {
                Some(t) => if t <= i64::MAX {
                    Some(t as i64)
                } else {
                    None::<i64>
                },
                None => None::<i64>,
            },
    {
        match self.config.tge {
            Some(t) => if t <= i64::MAX as u64 {
                Some(t as i64)
            } else {
                None
            },
            None => None,
        }
    }

    /// The sale tokens that were not sold and not withdrawn yet; only a fixed-price sale has
    /// unsold tokens.
    pub open spec fn unsold(&self) -> u128 {
        match self.config.mechanics {
            Mechanics::FixedPrice { .. } => self.config.sale_amount.saturating_sub(
                self.total_sold_tokens,
            ).saturating_sub(self.withdrawn_unsold_tokens.amount),
            Mechanics::PriceDiscovery => 0,
        }
    }

    /// Returns the sale tokens that were not sold and not withdrawn yet.
    pub fn unsold_amount_of_tokens(&self) -> (r: u128)
        ensures
            r == self.unsold(),
    {
        match self.config.mechanics {
            Mechanics::FixedPrice { .. } => self.config.sale_amount.saturating_sub(
                self.total_sold_tokens,
            ).saturating_sub(self.withdrawn_unsold_tokens.amount),
            Mechanics::PriceDiscovery => 0,
        }
    }

    /// Decides an admin withdrawal at `now`. Deposited tokens can be withdrawn after a
    /// successful sale once the deposits were distributed. Sale tokens can be withdrawn after
    /// a failure, while locked, or, after a success, up to the unsold tokens, one such
    /// withdrawal at a time (which is then marked as ongoing).
    pub fn admin_withdraw(&mut self, token: WithdrawalToken, amount: Option<u128>, now: u64) -> (r:
        Result<AdminWithdrawal, &'static str>)
        ensures
            ({
                let status = old(self).status_at(now);
                match token {
                    WithdrawalToken::Deposit => *final(self) == *old(self) && if status
                        != LaunchpadStatus::Success {
                        r == Err::<AdminWithdrawal, &'static str>(
                            "Deposited tokens could be withdrawn after success only",
                        )
                    } else if !old(self).deposits_distributed() {
                        r == Err::<AdminWithdrawal, &'static str>(
                            "Deposits distribution should be completed first",
                        )
                    } else {
                        r == Ok::<AdminWithdrawal, &'static str>(
                            AdminWithdrawal { token, amount, is_unsold: false },
                        )
                    },
                    WithdrawalToken::Sale => {
                        let unsold = old(self).unsold();
                        if !(status == LaunchpadStatus::Failed || status == LaunchpadStatus::Locked
                            || (status == LaunchpadStatus::Success && unsold > 0)) {
                            r == Err::<AdminWithdrawal, &'static str>(
                                "Sale tokens could be withdrawn after failing, in locked mode, or if there are unsold tokens",
                            ) && *final(self) == *old(self)
                        } else if status != LaunchpadStatus::Success {
                            r == Ok::<AdminWithdrawal, &'static str>(
                                AdminWithdrawal { token, amount, is_unsold: false },
                            ) && *final(self) == *old(self)
                        } else if old(self).withdrawn_unsold_tokens.is_ongoing {
                            r == Err::<AdminWithdrawal, &'static str>(
                                "Withdrawal is already ongoing",
                            ) && *final(self) == *old(self)
                        } else {
                            match amount {
                                Some(a) if a > unsold => r == Err::<AdminWithdrawal, &'static str>(
                                    "The amount is greater than the available number of unsold tokens",
                                ) && *final(self) == *old(self),
                                _ => {
                                    &&& r == Ok::<AdminWithdrawal, &'static str>(
                                        AdminWithdrawal {
                                            token,
                                            amount: Some(
                                                match amount {
                                                    Some(a) => a,
                                                    None => unsold,
                                                },
                                            ),
                                            is_unsold: true,
                                        },
                                    )
                                    &&& final(self).withdrawn_unsold_tokens.is_ongoing
                                    &&& final(self).withdrawn_unsold_tokens.amount == old(
                                        self,
                                    ).withdrawn_unsold_tokens.amount
                                    &&& final(self).same_except_unsold(old(self))
                                },
                            }
                        }
                    },
                }
            }),
    {
        match token {
            WithdrawalToken::Deposit => {
                if !self.is_success(now) {
                    return Err("Deposited tokens could be withdrawn after success only");
                }
                if !self.is_deposits_distributed() {
                    return Err("Deposits distribution should be completed first");
                }
                Ok(AdminWithdrawal { token, amount, is_unsold: false })
            },
            WithdrawalToken::Sale => {
                let unsold_amount = self.unsold_amount_of_tokens();
                let is_success = self.is_success(now);
                if !(self.is_failed(now) || self.is_locked(now) || (is_success && unsold_amount
                    > 0)) {
                    return Err(
                        "Sale tokens could be withdrawn after failing, in locked mode, or if there are unsold tokens",
                    );
                }
                if !is_success {
                    return Ok(AdminWithdrawal { token, amount, is_unsold: false });
                }
                if self.withdrawn_unsold_tokens.is_ongoing {
                    return Err("Withdrawal is already ongoing");
                }
                let amount = match amount {
                    Some(a) => {
                        if a > unsold_amount {
                            return Err(
                                "The amount is greater than the available number of unsold tokens",
                            );
                        }
                        a
                    },
                    None => unsold_amount,
                };
                self.withdrawn_unsold_tokens.is_ongoing = true;
                Ok(AdminWithdrawal { token, amount: Some(amount), is_unsold: true })
            },
        }
    }

    /// Everything but the withdrawn unsold tokens is the same in `self` and `other`.
    pub open spec fn same_except_unsold(&self, other: &Self) -> bool {
        &&& self.config == other.config
        &&& self.participants_count == other.participants_count
        &&& self.total_deposited == other.total_deposited
        &&& self.total_sold_tokens == other.total_sold_tokens
        &&& self.investments.view() == other.investments.view()
        &&& self.vestings.view() == other.vestings.view()
        &&& self.individual_vesting_claimed.view() == other.individual_vesting_claimed.view()
        &&& self.is_sale_token_set == other.is_sale_token_set
        &&& self.is_locked == other.is_locked
        &&& self.distributed_accounts.view() == other.distributed_accounts.view()
        &&& self.locked_withdraw.view() == other.locked_withdraw.view()
        &&& self.deposits_distribution == other.deposits_distribution
        &&& self.discount_state == other.discount_state
    }

    /// Settles a withdrawal of `amount` unsold sale tokens from the outcome of its transfer:
    /// on success the withdrawn amount is recorded (for a call, what the call reports, zero
    /// when it does not decode); the withdrawal is no longer ongoing.
    pub fn finish_unsold_withdrawal(&mut self, amount: u128, is_call: bool, outcome: &PromiseOutcome)
        ensures
            final(self).withdrawn_unsold_tokens.amount == match reported_amount(*outcome, 0) {
                Some(reported) => old(self).withdrawn_unsold_tokens.amount.saturating_add(
                    if is_call {
                        reported
                    } else {
                        amount
                    },
                ),
                None => old(self).withdrawn_unsold_tokens.amount,
            },
            !final(self).withdrawn_unsold_tokens.is_ongoing,
            final(self).same_except_unsold(old(self)),
    {
        if let Some(reported) = read_reported_amount(outcome, 0) {
            let withdrawn_amount = if is_call {
                reported
            } else {
                amount
            };
            self.withdrawn_unsold_tokens.amount = self.withdrawn_unsold_tokens.amount.saturating_add(
                withdrawn_amount,
            );
        }
        self.withdrawn_unsold_tokens.is_ongoing = false;
    }

    /// Everything but the discount state is the same in `self` and `other`.
    pub open spec fn same_except_discounts(&self, other: &Self) -> bool {
        &&& self.config == other.config
        &&& self.participants_count == other.participants_count
        &&& self.total_deposited == other.total_deposited
        &&& self.total_sold_tokens == other.total_sold_tokens
        &&& self.investments.view() == other.investments.view()
        &&& self.vestings.view() == other.vestings.view()
        &&& self.individual_vesting_claimed.view() == other.individual_vesting_claimed.view()
        &&& self.is_sale_token_set == other.is_sale_token_set
        &&& self.is_locked == other.is_locked
        &&& self.distributed_accounts.view() == other.distributed_accounts.view()
        &&& self.locked_withdraw.view() == other.locked_withdraw.view()
        &&& self.deposits_distribution == other.deposits_distribution
        &&& self.withdrawn_unsold_tokens == other.withdrawn_unsold_tokens
    }

    /// Adds the accounts to the whitelist of discount phase `phase_id`, creating the
    /// whitelist when the phase has none; the phase is then open to whitelisted accounts only.
    pub fn extend_whitelist_for_discount_phase(&mut self, phase_id: u16, accounts: Vec<IntentsAccount>)
        -> (r: Result<(), WhitelistError>)
        ensures
            match old(self).discount_phase(phase_id) {
                None => r == Err::<(), WhitelistError>(WhitelistError::PhaseNotFound)
                    && *final(self) == *old(self),
                Some(p) => {
                    &&& r is Ok
                    &&& final(self).discount_phase(phase_id) matches Some(q) && q.id == p.id
                        && q.total_sale_tokens == p.total_sale_tokens && q.limit_per_phase
                        == p.limit_per_phase && q.account_sale_tokens == p.account_sale_tokens
                        && q.whitelist is Some && forall|a: IntentsAccount|
                        q.allowed(a) <==> (holds_account(accounts@, a) || (p.whitelist is Some
                            && p.allowed(a)))
                    &&& final(self).same_except_discounts(old(self))
                },
            },
    {
        let mut state = match self.discount_state.take() {
            Some(s) => s,
            None => return Err(WhitelistError::PhaseNotFound),
        };
        let k = match find_phase_index(&state.phases, phase_id) {
            Some(k) => k,
            None => {
                proof {
                    crate::discount::ledger::lemma_no_phase_state(state@.phases, phase_id);
                }
                self.discount_state = Some(state);
                return Err(WhitelistError::PhaseNotFound);
            },
        };
        let ghost before = state@.phases;
        proof {
            crate::discount::state::lemma_phase_state_at_first(before, phase_id, k as int);
        }
        let mut phase = state.phases.remove(k);
        phase.extend_whitelist(accounts);
        let ghost updated = phase@;
        state.phases.insert(k, phase);
        proof {
            assert(state@.phases =~= before.update(k as int, updated));
            crate::discount::state::lemma_phase_state_update(before, phase_id, k as int, updated, phase_id);
        }
        self.discount_state = Some(state);
        Ok(())
    }

    /// Removes the accounts from the whitelist of discount phase `phase_id`.
    pub fn remove_from_whitelist_for_discount_phase(
        &mut self,
        phase_id: u16,
        accounts: Vec<IntentsAccount>,
    ) -> (r: Result<(), WhitelistError>)
        ensures
            match old(self).discount_phase(phase_id) {
                None => r == Err::<(), WhitelistError>(WhitelistError::PhaseNotFound)
                    && *final(self) == *old(self),
                Some(p) => if p.whitelist is None {
                    r == Err::<(), WhitelistError>(WhitelistError::NoWhitelist) && final(
                        self).discount_phase(phase_id) == Some(p) && final(self).same_except_discounts(
                        old(self))
                } else {
                    &&& r is Ok
                    &&& final(self).discount_phase(phase_id) matches Some(q) && q.id == p.id
                        && q.total_sale_tokens == p.total_sale_tokens && q.limit_per_phase
                        == p.limit_per_phase && q.account_sale_tokens == p.account_sale_tokens
                        && q.whitelist is Some && forall|a: IntentsAccount|
                        q.allowed(a) <==> (p.allowed(a) && !holds_account(accounts@, a))
                    &&& final(self).same_except_discounts(old(self))
                },
            },
    {
        let mut state = match self.discount_state.take() {
            Some(s) => s,
            None => return Err(WhitelistError::PhaseNotFound),
        };
        let k = match find_phase_index(&state.phases, phase_id) {
            Some(k) => k,
            None => {
                proof {
                    crate::discount::ledger::lemma_no_phase_state(state@.phases, phase_id);
                }
                self.discount_state = Some(state);
                return Err(WhitelistError::PhaseNotFound);
            },
        };
        let ghost before = state@.phases;
        proof {
            crate::discount::state::lemma_phase_state_at_first(before, phase_id, k as int);
        }
        let mut phase = state.phases.remove(k);
        let removed = phase.remove_from_whitelist(accounts);
        let ghost updated = phase@;
        state.phases.insert(k, phase);
        proof {
            assert(state@.phases =~= before.update(k as int, updated));
            crate::discount::state::lemma_phase_state_update(before, phase_id, k as int, updated, phase_id);
        }
        self.discount_state = Some(state);
        match removed {
            Some(()) => Ok(()),
            None => Err(WhitelistError::NoWhitelist),
        }
    }

    /// The state of discount phase `phase_id`, if the sale has one.
    pub open spec fn discount_phase(&self, phase_id: u16) -> Option<PhaseView> {
        match self.discount_state {
            Some(state) => phase_state(state@.phases, phase_id),
            None => None,
        }
    }

    /// Returns the accounts of the whitelist of discount phase `phase_id`, if the phase
    /// exists and has a whitelist.
    pub fn get_whitelist_for_discount_phase(&self, phase_id: u16) -> (r: Option<Vec<IntentsAccount>>)
        ensures
            match self.discount_phase(phase_id) {
                Some(p) => match p.whitelist {
                    Some(list) => r matches Some(w) && w@ == list,
                    None => r is None,
                },
                None => r is None,
            },
    {
        match &self.discount_state {
            Some(state) => match find_phase_index(&state.phases, phase_id) {
                Some(k) => {
                    proof {
                        crate::discount::state::lemma_phase_state_at_first(
                            state@.phases,
                            phase_id,
                            k as int,
                        );
                    }
                    state.phases[k].get_whitelist()
                },
                None => {
                    proof {
                        crate::discount::ledger::lemma_no_phase_state(state@.phases, phase_id);
                    }
                    None
                },
            },
            None => None,
        }
    }
}

} // verus!

verus! {

/// A locked launchpad has the status `Locked` at every moment, and unlocking it gives back
/// the launchpad as it was before it was locked, with the same status at every moment.
pub proof fn lemma_lock_then_unlock_restores_status(
    before: AuroraLaunchpadContract,
    locked: AuroraLaunchpadContract,
    unlocked: AuroraLaunchpadContract,
    lock_time: u64,
    unlock_time: u64,
    now: u64,
)
    requires
        locked.lock_applied(before, lock_time, Ok(())),
        unlocked.unlock_applied(locked, unlock_time, Ok(())),
    ensures
        locked.status_at(now) == LaunchpadStatus::Locked,
        unlocked.status_at(now) == before.status_at(now),
        unlocked.is_locked == before.is_locked,
        unlocked.same_except_lock_flag(&before),
{
}

} // verus!
