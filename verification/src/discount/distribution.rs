//! How a deposit is split between the discount phases that are open to the account, the
//! public sale and a refund.
use crate::discount::ledger::{
    account_tokens_in_phase, find_phase_index, group_sold, phases_limit_excess,
};
use crate::discount::params::{active_indices, params_of};
use crate::discount::state::{
    lemma_phase_state_at_first, phase_state, DiscountState, DiscountStateView, PhaseView,
};
use crate::mechanics::deposit::{
    calculate_amount_of_sale_tokens, calculate_weight_from_sale_tokens,
    spec_amount_of_sale_tokens, spec_weight_from_sale_tokens,
};
use crate::types::{
    weights_total, DepositDistribution, DiscountParams, DiscountPhase, DistributionView,
    IntentsAccount, LaunchpadConfig, Mechanics, MULTIPLIER,
};
use vstd::arithmetic::div_mod::{lemma_fundamental_div_mod, lemma_mod_pos_bound};
use crate::wide::{mul_div, spec_mul_div};
use vstd::prelude::*;

verus! {

/// The weight of `deposit` with a discount of `percent` basis points.
pub open spec fn spec_weight_with_discount(deposit: u128, percent: u16) -> Result<u128, &'static str> {
    spec_mul_div(deposit, (10_000 + percent) as u128, 10_000)
}

/// The deposit that a discounted `weight` stands for, with a discount of `percent` basis
/// points.
pub open spec fn spec_weight_without_discount(weight: u128, percent: u16) -> Result<
    u128,
    &'static str,
> {
    spec_mul_div(weight, 10_000, (10_000 + percent) as u128)
}

/// Returns the weight of `deposit` with a discount of `percent` basis points, rounded down.
pub fn calculate_weight_with_discount(deposit: u128, percent: u16) -> (r: Result<u128, &'static str>)
    ensures
        r == spec_weight_with_discount(deposit, percent),
{
    mul_div(deposit, MULTIPLIER + percent as u128, MULTIPLIER)
}

/// Returns the deposit that a discounted `weight` stands for, rounded down.
pub fn calculate_weight_without_discount(weight: u128, percent: u16) -> (r: Result<
    u128,
    &'static str,
>)
    ensures
        r == spec_weight_without_discount(weight, percent),
{
    mul_div(weight, MULTIPLIER, MULTIPLIER + percent as u128)
}

/// The position at which `x` joins `s`: after every entry whose percentage is at least that
/// of `x`.
pub open spec fn insert_pos(s: Seq<(u16, u16)>, x: (u16, u16)) -> int
    decreases s.len(),
{
    if s.len() == 0 {
        0
    } else if s[0].1 < x.1 {
        0
    } else {
        1 + insert_pos(s.drop_first(), x)
    }
}

/// `s` sorted by percentage, highest first; entries with equal percentages keep their order.
pub open spec fn sorted_by_percentage(s: Seq<(u16, u16)>) -> Seq<(u16, u16)>
    decreases s.len(),
{
    if s.len() == 0 {
        Seq::empty()
    } else {
        let r = sorted_by_percentage(s.drop_last());
        r.insert(insert_pos(r, s.last()), s.last())
    }
}

proof fn lemma_insert_pos(s: Seq<(u16, u16)>, x: (u16, u16), j: int)
    requires
        0 <= j <= s.len(),
        forall|m: int| 0 <= m < j ==> s[m].1 >= x.1,
        j < s.len() ==> s[j].1 < x.1,
    ensures
        insert_pos(s, x) == j,
    decreases j,
{
    if j > 0 {
        assert(forall|m: int| 0 <= m < j - 1 ==> s.drop_first()[m] == s[m + 1]);
        lemma_insert_pos(s.drop_first(), x, j - 1);
    }
}

/// Sorts the entries by percentage, highest first, keeping the order of equal percentages.
pub fn sort_by_percentage(v: Vec<(u16, u16)>) -> (r: Vec<(u16, u16)>)
    ensures
        r@ == sorted_by_percentage(v@),
{
    let mut r: Vec<(u16, u16)> = Vec::new();
    let mut i: usize = 0;
    while i < v.len()
        invariant
            i <= v.len(),
            r@ == sorted_by_percentage(v@.subrange(0, i as int)),
        decreases v.len() - i,
    {
        let x = v[i];
        let mut j: usize = 0;
        while j < r.len() && r[j].1 >= x.1
            invariant
                j <= r.len(),
                forall|m: int| 0 <= m < j ==> r@[m].1 >= x.1,
            decreases r.len() - j,
        {
            j = j + 1;
        }
        proof {
            lemma_insert_pos(r@, x, j as int);
            let prefix = v@.subrange(0, i + 1);
            assert(prefix.drop_last() =~= v@.subrange(0, i as int));
            assert(prefix.last() == x);
        }
        r.insert(j, x);
        i = i + 1;
    }
    assert(v@.subrange(0, i as int) =~= v@);
    r
}

/// The account may use the discount of `phase`: the phase has a state, the account has not
/// reached its maximum in it, and the account is allowed in it.
pub open spec fn discount_open_to(views: Seq<PhaseView>, phase: DiscountPhase, account: IntentsAccount)
    -> bool {
    match phase_state(views, phase.id) {
        Some(p) => !p.limit_reached(account, phase) && p.allowed(account),
        None => false,
    }
}

/// The ids and percentages of the phases at `indices` whose discount is open to the account,
/// in the order of `indices`.
pub open spec fn percentages_of(
    views: Seq<PhaseView>,
    phases: Seq<DiscountPhase>,
    indices: Seq<usize>,
    account: IntentsAccount,
) -> Seq<(u16, u16)>
    decreases indices.len(),
{
    if indices.len() == 0 {
        Seq::empty()
    } else {
        let rest = percentages_of(views, phases, indices.drop_last(), account);
        let phase = phases[indices.last() as int];
        if discount_open_to(views, phase, account) {
            rest.push((phase.id, phase.percentage))
        } else {
            rest
        }
    }
}

/// Every index that `active_indices` returns is a valid index.
pub proof fn lemma_active_indices_in_range(phases: Seq<DiscountPhase>, timestamp: u64)
    ensures
        forall|k: int|
            0 <= k < active_indices(phases, timestamp).len() ==> active_indices(
                phases,
                timestamp,
            )[k] < phases.len(),
    decreases phases.len(),
{
    if phases.len() > 0 {
        lemma_active_indices_in_range(phases.drop_last(), timestamp);
        let rest = active_indices(phases.drop_last(), timestamp);
        let all = active_indices(phases, timestamp);
        assert forall|k: int| 0 <= k < all.len() implies all[k] < phases.len() by {
            if k < rest.len() {
                assert(all[k] == rest[k]);
            }
        }
    }
}

/// The state of a fixed-price distribution while it walks through the discount phases.
pub struct ProgressView {
    pub remain_deposit: u128,
    pub remain_available: u128,
    pub sold_in_previous_phases: u128,
    pub phase_weights: Seq<(u16, u128)>,
    pub done: bool,
}

/// The state of a fixed-price distribution while it walks through the discount phases.
pub struct FixedPriceProgress {
    /// Deposit not yet spent.
    pub remain_deposit: u128,
    /// Sale tokens still available for sale.
    pub remain_available: u128,
    /// Sale tokens bought in the phases already taken by this deposit.
    pub sold_in_previous_phases: u128,
    /// The weights recorded so far.
    pub phase_weights: Vec<(u16, u128)>,
    /// Nothing more can be spent in the remaining phases.
    pub done: bool,
}

impl View for FixedPriceProgress {
    type V = ProgressView;

    open spec fn view(&self) -> ProgressView {
        ProgressView {
            remain_deposit: self.remain_deposit,
            remain_available: self.remain_available,
            sold_in_previous_phases: self.sold_in_previous_phases,
            phase_weights: self.phase_weights@,
            done: self.done,
        }
    }
}

/// The abstract value of a step's result.
pub open spec fn progress_result(r: Result<FixedPriceProgress, &'static str>) -> Result<
    ProgressView,
    &'static str,
> {
    match r {
        Ok(p) => Ok(p@),
        Err(e) => Err(e),
    }
}

/// The abstract value of a distribution result.
pub open spec fn distribution_result(r: Result<DepositDistribution, &'static str>) -> Result<
    DistributionView,
    &'static str,
> {
    match r {
        Ok(d) => Ok(d@),
        Err(e) => Err(e),
    }
}

/// The largest of three amounts.
pub open spec fn max3(a: u128, b: u128, c: u128) -> u128 {
    let ab = if a >= b {
        a
    } else {
        b
    };
    if ab >= c {
        ab
    } else {
        c
    }
}

/// The starting state of a fixed-price distribution.
pub open spec fn initial_progress(deposit: u128, available: u128) -> ProgressView {
    ProgressView {
        remain_deposit: deposit,
        remain_available: available,
        sold_in_previous_phases: 0,
        phase_weights: Seq::empty(),
        done: false,
    }
}

impl DiscountStateView {
    /// A phase whose amount must be capped by a limit: the capped sale tokens are converted
    /// to a weight and back; the phase is skipped when that buys nothing, falls below the
    /// per-account minimum, or costs no deposit. Otherwise the capped sale tokens are taken
    /// off what is still available.
    pub open spec fn capped_phase_step(
        self,
        phase: DiscountPhase,
        existed_account: u128,
        deposit_token: u128,
        sale_token: u128,
        acc: ProgressView,
        id: u16,
        percent: u16,
        available_tokens: u128,
    ) -> Result<ProgressView, &'static str> {
        match spec_weight_from_sale_tokens(available_tokens, deposit_token, sale_token) {
            Err(e) => Err(e),
            Ok(weight_for_phase) => match spec_amount_of_sale_tokens(
                weight_for_phase,
                deposit_token,
                sale_token,
            ) {
                Err(e) => Err(e),
                Ok(accepted) => if accepted == 0 || !phase.spec_min_limit_passed(
                    accepted,
                    existed_account,
                ) {
                    Ok(acc)
                } else {
                    match spec_weight_without_discount(weight_for_phase, percent) {
                        Err(e) => Err(e),
                        Ok(required) => if required == 0 {
                            Ok(acc)
                        } else {
                            let remain_deposit = acc.remain_deposit.saturating_sub(required);
                            let remain_available = acc.remain_available.saturating_sub(
                                available_tokens,
                            );
                            Ok(
                                ProgressView {
                                    remain_deposit,
                                    remain_available,
                                    sold_in_previous_phases: acc.sold_in_previous_phases.saturating_add(
                                        available_tokens,
                                    ),
                                    phase_weights: acc.phase_weights.push((id, weight_for_phase)),
                                    done: remain_deposit == 0 || remain_available == 0,
                                },
                            )
                        },
                    }
                },
            },
        }
    }

    /// One discount phase of a fixed-price distribution.
    pub open spec fn fixed_price_step(
        self,
        params: Seq<DiscountPhase>,
        account: IntentsAccount,
        deposit_token: u128,
        sale_token: u128,
        acc: ProgressView,
        entry: (u16, u16),
    ) -> Result<ProgressView, &'static str> {
        let (id, percent) = entry;
        if acc.done {
            Ok(acc)
        } else {
            match spec_weight_with_discount(acc.remain_deposit, percent) {
                Err(e) => Err(e),
                Ok(weight) => match params_of(params, id) {
                    None => Err("Discount phase not found"),
                    Some(phase) => {
                        let existed_account = account_tokens_in_phase(self.phases, account, id);
                        let existed_phases = group_sold(self.phases, self.linked_phases, id);
                        match spec_amount_of_sale_tokens(weight, deposit_token, sale_token) {
                            Err(e) => Err(e),
                            Ok(sale) => if !phase.spec_min_limit_passed(sale, existed_account) {
                                Ok(acc)
                            } else {
                                let per_account = existed_account.saturating_add(sale);
                                let per_phases = existed_phases.saturating_add(
                                    acc.sold_in_previous_phases,
                                ).saturating_add(sale);
                                let max_exceeded = max3(
                                    phases_limit_excess(
                                        self.phases,
                                        self.linked_phases,
                                        per_phases,
                                        id,
                                    ),
                                    phase.spec_account_limit_excess(per_account),
                                    sale.saturating_sub(acc.remain_available),
                                );
                                if max_exceeded > 0 {
                                    self.capped_phase_step(
                                        phase,
                                        existed_account,
                                        deposit_token,
                                        sale_token,
                                        acc,
                                        id,
                                        percent,
                                        sale.saturating_sub(max_exceeded),
                                    )
                                } else {
                                    Ok(
                                        ProgressView {
                                            remain_deposit: 0,
                                            remain_available: acc.remain_available.saturating_sub(
                                                sale,
                                            ),
                                            sold_in_previous_phases: acc.sold_in_previous_phases.saturating_add(
                                                sale,
                                            ),
                                            phase_weights: acc.phase_weights.push((id, weight)),
                                            done: true,
                                        },
                                    )
                                }
                            },
                        }
                    },
                },
            }
        }
    }

    /// The state after walking through the discount phases `percents` in turn.
    pub open spec fn fixed_price_walk(
        self,
        params: Seq<DiscountPhase>,
        account: IntentsAccount,
        deposit_token: u128,
        sale_token: u128,
        percents: Seq<(u16, u16)>,
        deposit: u128,
        available: u128,
    ) -> Result<ProgressView, &'static str>
        decreases percents.len(),
    {
        if percents.len() == 0 {
            Ok(initial_progress(deposit, available))
        } else {
            match self.fixed_price_walk(
                params,
                account,
                deposit_token,
                sale_token,
                percents.drop_last(),
                deposit,
                available,
            ) {
                Err(e) => Err(e),
                Ok(acc) => self.fixed_price_step(
                    params,
                    account,
                    deposit_token,
                    sale_token,
                    acc,
                    percents.last(),
                ),
            }
        }
    }

    /// The fixed-price distribution of a deposit over the discount phases `percents`.
    pub open spec fn fixed_price_distribution(
        self,
        params: Seq<DiscountPhase>,
        account: IntentsAccount,
        deposit_token: u128,
        sale_token: u128,
        percents: Seq<(u16, u16)>,
        deposit: u128,
        available: u128,
        public_sale_allowed: bool,
    ) -> Result<DistributionView, &'static str> {
        match self.fixed_price_walk(
            params,
            account,
            deposit_token,
            sale_token,
            percents,
            deposit,
            available,
        ) {
            Err(e) => Err(e),
            Ok(acc) => public_sale_part(acc, public_sale_allowed, deposit_token, sale_token),
        }
    }

    /// The distribution of a deposit over the discount phases `percents` (sorted), by the
    /// mechanics of the sale.
    pub open spec fn phases_distribution(
        self,
        params: Seq<DiscountPhase>,
        account: IntentsAccount,
        deposit: u128,
        percents: Seq<(u16, u16)>,
        mechanics: Mechanics,
        available: u128,
        public_sale_allowed: bool,
    ) -> Result<DistributionView, &'static str> {
        match mechanics {
            Mechanics::FixedPrice { deposit_token, sale_token } => self.fixed_price_distribution(
                params,
                account,
                deposit_token,
                sale_token,
                percents,
                deposit,
                available,
                public_sale_allowed,
            ),
            Mechanics::PriceDiscovery => price_discovery_distribution(percents, deposit),
        }
    }

    /// The distribution of a deposit of `account` at `timestamp`, with `total_sold_tokens`
    /// already sold.
    pub open spec fn deposit_distribution(
        self,
        account: IntentsAccount,
        deposit: u128,
        timestamp: u64,
        config: LaunchpadConfig,
        total_sold_tokens: u128,
    ) -> DistributionView {
        match config.discounts {
            None => DistributionView::WithoutDiscount(deposit),
            Some(params) => {
                let percents = sorted_by_percentage(
                    percentages_of(
                        self.phases,
                        params.phases@,
                        active_indices(params.phases@, timestamp),
                        account,
                    ),
                );
                let public_sale_allowed = match params.public_sale_start_time {
                    Some(start) => timestamp >= start,
                    None => true,
                };
                if percents.len() == 0 {
                    if public_sale_allowed {
                        DistributionView::WithoutDiscount(deposit)
                    } else {
                        DistributionView::Refund(deposit)
                    }
                } else {
                    let available = config.sale_amount.saturating_sub(total_sold_tokens);
                    if available == 0 && config.mechanics is FixedPrice {
                        DistributionView::Refund(deposit)
                    } else {
                        match self.phases_distribution(
                            params.phases@,
                            account,
                            deposit,
                            percents,
                            config.mechanics,
                            available,
                            public_sale_allowed,
                        ) {
                            Ok(d) => d,
                            Err(_) => DistributionView::Refund(deposit),
                        }
                    }
                }
            },
        }
    }
}

/// What is left of the deposit after the discount phases goes to the public sale, within the
/// sale tokens still available; the rest is refunded. When the available sale tokens do not
/// buy a whole sale token, nothing is accepted.
pub open spec fn public_sale_part(
    acc: ProgressView,
    public_sale_allowed: bool,
    deposit_token: u128,
    sale_token: u128,
) -> Result<DistributionView, &'static str> {
    if acc.remain_deposit > 0 && acc.remain_available > 0 && public_sale_allowed {
        match spec_amount_of_sale_tokens(acc.remain_deposit, deposit_token, sale_token) {
            Err(e) => Err(e),
            Ok(sale) => if sale > acc.remain_available {
                match spec_weight_from_sale_tokens(acc.remain_available, deposit_token, sale_token) {
                    Err(e) => Err(e),
                    Ok(weight) => match spec_amount_of_sale_tokens(
                        weight,
                        deposit_token,
                        sale_token,
                    ) {
                        Err(e) => Err(e),
                        Ok(bought) => {
                            let accepted = if bought == 0 {
                                0
                            } else {
                                weight
                            };
                            Ok(
                                DistributionView::WithDiscount {
                                    phase_weights: acc.phase_weights,
                                    public_sale_weight: accepted,
                                    refund: acc.remain_deposit.saturating_sub(accepted),
                                },
                            )
                        },
                    },
                }
            } else {
                Ok(
                    DistributionView::WithDiscount {
                        phase_weights: acc.phase_weights,
                        public_sale_weight: acc.remain_deposit,
                        refund: 0,
                    },
                )
            },
        }
    } else {
        Ok(
            DistributionView::WithDiscount {
                phase_weights: acc.phase_weights,
                public_sale_weight: 0,
                refund: acc.remain_deposit,
            },
        )
    }
}

/// With price discovery the whole deposit goes to the phase with the highest discount.
pub open spec fn price_discovery_distribution(percents: Seq<(u16, u16)>, deposit: u128) -> Result<
    DistributionView,
    &'static str,
> {
    if percents.len() == 0 {
        Err("At least one discount must exist")
    } else {
        match spec_weight_with_discount(deposit, percents[0].1) {
            Err(e) => Err(e),
            Ok(weight) => Ok(
                DistributionView::WithDiscount {
                    phase_weights: seq![(percents[0].0, weight)],
                    public_sale_weight: 0,
                    refund: 0,
                },
            ),
        }
    }
}

/// Returns the distribution of a price-discovery deposit: all of it, with the discount of the
/// first phase, goes to that phase.
pub fn deposit_distribution_price_discovery(percent_per_phase: &Vec<(u16, u16)>, deposit: u128) -> (r:
    Result<DepositDistribution, &'static str>)
    ensures
        distribution_result(r) == price_discovery_distribution(percent_per_phase@, deposit),
{
    if percent_per_phase.len() == 0 {
        return Err("At least one discount must exist");
    }
    let (id, percent) = percent_per_phase[0];
    let weight = calculate_weight_with_discount(deposit, percent)?;
    let mut phase_weights: Vec<(u16, u128)> = Vec::new();
    phase_weights.push((id, weight));
    let r = DepositDistribution::WithDiscount { phase_weights, public_sale_weight: 0, refund: 0 };
    assert(phase_weights@ =~= seq![(percent_per_phase@[0].0, weight)]);
    Ok(r)
}

} // verus!

verus! {

/// Once the walk failed or has nothing more to spend, later phases change nothing.
pub proof fn lemma_walk_stops(
    view: DiscountStateView,
    params: Seq<DiscountPhase>,
    account: IntentsAccount,
    deposit_token: u128,
    sale_token: u128,
    percents: Seq<(u16, u16)>,
    deposit: u128,
    available: u128,
    k: int,
    k2: int,
)
    requires
        0 <= k <= k2 <= percents.len(),
        match view.fixed_price_walk(
            params,
            account,
            deposit_token,
            sale_token,
            percents.subrange(0, k),
            deposit,
            available,
        ) {
            Ok(acc) => acc.done,
            Err(_) => true,
        },
    ensures
        view.fixed_price_walk(
            params,
            account,
            deposit_token,
            sale_token,
            percents.subrange(0, k2),
            deposit,
            available,
        ) == view.fixed_price_walk(
            params,
            account,
            deposit_token,
            sale_token,
            percents.subrange(0, k),
            deposit,
            available,
        ),
    decreases k2 - k,
{
    if k2 > k {
        lemma_walk_stops(
            view,
            params,
            account,
            deposit_token,
            sale_token,
            percents,
            deposit,
            available,
            k,
            k2 - 1,
        );
        assert(percents.subrange(0, k2).drop_last() =~= percents.subrange(0, k2 - 1));
    }
}

impl DiscountState {
    /// Returns the ids and percentages of the phases running at `timestamp` whose discount is
    /// open to the account, in phase order.
    pub fn get_discount_percentage_per_phase(
        &self,
        account: &IntentsAccount,
        timestamp: u64,
        discount_params: &DiscountParams,
    ) -> (r: Vec<(u16, u16)>)
        ensures
            r@ == percentages_of(
                self@.phases,
                discount_params.phases@,
                active_indices(discount_params.phases@, timestamp),
                *account,
            ),
    {
        let indices = discount_params.get_phases_by_time(timestamp);
        proof {
            lemma_active_indices_in_range(discount_params.phases@, timestamp);
        }
        let mut r: Vec<(u16, u16)> = Vec::new();
        let mut i: usize = 0;
        while i < indices.len()
            invariant
                i <= indices.len(),
                indices@ == active_indices(discount_params.phases@, timestamp),
                forall|k: int| 0 <= k < indices@.len() ==> indices@[k] < discount_params.phases@.len(),
                r@ == percentages_of(
                    self@.phases,
                    discount_params.phases@,
                    indices@.subrange(0, i as int),
                    *account,
                ),
            decreases indices.len() - i,
        {
            proof {
                let prefix = indices@.subrange(0, i + 1);
                assert(prefix.drop_last() =~= indices@.subrange(0, i as int));
            }
            let phase = &discount_params.phases[indices[i]];
            match find_phase_index(&self.phases, phase.id) {
                Some(k) => {
                    proof {
                        lemma_phase_state_at_first(self@.phases, phase.id, k as int);
                    }
                    let state = &self.phases[k];
                    if !state.is_exceeded_account_limit(account, phase) && state.is_account_allowed(
                        account,
                    ) {
                        r.push((phase.id, phase.percentage));
                    }
                },
                None => {
                    proof {
                        crate::discount::ledger::lemma_no_phase_state(self@.phases, phase.id);
                    }
                },
            }
            i = i + 1;
        }
        assert(indices@.subrange(0, i as int) =~= indices@);
        r
    }

    /// Takes the deposit left in `progress` through one discount phase of a fixed-price sale.
    fn fixed_price_phase_step(
        &self,
        progress: FixedPriceProgress,
        entry: (u16, u16),
        account: &IntentsAccount,
        discount_params: &DiscountParams,
        deposit_token: u128,
        sale_token: u128,
    ) -> (r: Result<FixedPriceProgress, &'static str>)
        requires
            deposit_token > 0,
            sale_token > 0,
            !progress.done,
        ensures
            progress_result(r) == self@.fixed_price_step(
                discount_params.phases@,
                *account,
                deposit_token,
                sale_token,
                progress@,
                entry,
            ),
    {
        let (id, percent) = entry;
        let weight = calculate_weight_with_discount(progress.remain_deposit, percent)?;
        let phase_params = discount_params.get_phase_params_by_id(id)?;
        let existed_account_sale_tokens = self.get_account_sale_tokens_for_phase(account, id);
        let existed_phase_sale_tokens = self.get_total_sale_tokens_for_phases_with_limits(id);
        let sale_tokens_per_deposit = calculate_amount_of_sale_tokens(
            weight,
            deposit_token,
            sale_token,
        )?;
        if !phase_params.is_min_limit_passed(sale_tokens_per_deposit, existed_account_sale_tokens) {
            return Ok(progress);
        }
        let sale_tokens_per_account = existed_account_sale_tokens.saturating_add(
            sale_tokens_per_deposit,
        );
        let sale_tokens_per_phases = existed_phase_sale_tokens.saturating_add(
            progress.sold_in_previous_phases,
        ).saturating_add(sale_tokens_per_deposit);
        let exceeded_account_limit = phase_params.check_sale_account_limit_exceeded(
            sale_tokens_per_account,
        );
        let exceeded_phase_limit = self.check_sale_phases_limit_exceeded(
            sale_tokens_per_phases,
            id,
        );
        let exceeded_global_limit = sale_tokens_per_deposit.saturating_sub(
            progress.remain_available,
        );
        // The largest of the exceeded phase, account and global limits.
        let mut max_exceeded = if exceeded_phase_limit >= exceeded_account_limit {
            exceeded_phase_limit
        } else {
            exceeded_account_limit
        };
        if exceeded_global_limit > max_exceeded {
            max_exceeded = exceeded_global_limit;
        }
        let mut progress = progress;
        if max_exceeded > 0 {
            let available_tokens_for_sale = sale_tokens_per_deposit.saturating_sub(max_exceeded);
            let weight_for_phase = calculate_weight_from_sale_tokens(
                available_tokens_for_sale,
                deposit_token,
                sale_token,
            )?;
            // The sale tokens that the capped weight actually buys, after rounding.
            let accepted_sale_tokens = calculate_amount_of_sale_tokens(
                weight_for_phase,
                deposit_token,
                sale_token,
            )?;
            if accepted_sale_tokens == 0 || !phase_params.is_min_limit_passed(
                accepted_sale_tokens,
                existed_account_sale_tokens,
            ) {
                return Ok(progress);
            }
            let required_deposit = calculate_weight_without_discount(weight_for_phase, percent)?;
            if required_deposit == 0 {
                return Ok(progress);
            }
            progress.phase_weights.push((id, weight_for_phase));
            progress.remain_deposit = progress.remain_deposit.saturating_sub(required_deposit);
            progress.remain_available = progress.remain_available.saturating_sub(
                available_tokens_for_sale,
            );
            progress.sold_in_previous_phases = progress.sold_in_previous_phases.saturating_add(
                available_tokens_for_sale,
            );
        } else {
            // No limit exceeded: this phase takes the whole remaining deposit.
            progress.phase_weights.push((id, weight));
            progress.remain_deposit = 0;
            progress.remain_available = progress.remain_available.saturating_sub(
                sale_tokens_per_deposit,
            );
            progress.sold_in_previous_phases = progress.sold_in_previous_phases.saturating_add(
                sale_tokens_per_deposit,
            );
        }
        // No more deposit or nothing left to sell.
        progress.done = progress.remain_deposit == 0 || progress.remain_available == 0;
        Ok(progress)
    }

    /// Returns the distribution of a fixed-price deposit: the phases are taken in turn, each
    /// within the account, phase and global limits; what is left goes to the public sale
    /// (when it is open) within the sale tokens still available, and the rest is refunded.
    fn deposit_distribution_fixed_price(
        &self,
        percent_per_phase: &Vec<(u16, u16)>,
        deposit: u128,
        account: &IntentsAccount,
        discount_params: &DiscountParams,
        mechanics: Mechanics,
        available_for_sale: u128,
        is_public_sale_allowed: bool,
    ) -> (r: Result<DepositDistribution, &'static str>)
        requires
            mechanics.valid(),
        ensures
            match mechanics {
                Mechanics::FixedPrice { deposit_token, sale_token } => distribution_result(r)
                    == self@.fixed_price_distribution(
                    discount_params.phases@,
                    *account,
                    deposit_token,
                    sale_token,
                    percent_per_phase@,
                    deposit,
                    available_for_sale,
                    is_public_sale_allowed,
                ),
                Mechanics::PriceDiscovery => r == Err::<DepositDistribution, &'static str>(
                    "FixedPrice mechanic is expected",
                ),
            },
    {
        let (deposit_token, sale_token) = match mechanics {
            Mechanics::FixedPrice { deposit_token, sale_token } => (deposit_token, sale_token),
            Mechanics::PriceDiscovery => return Err("FixedPrice mechanic is expected"),
        };
        let ghost view = self@;
        let ghost params = discount_params.phases@;
        let ghost percents = percent_per_phase@;
        let mut progress = FixedPriceProgress {
            remain_deposit: deposit,
            remain_available: available_for_sale,
            sold_in_previous_phases: 0,
            phase_weights: Vec::new(),
            done: false,
        };
        assert(progress@ == initial_progress(deposit, available_for_sale));
        assert(percents.subrange(0, 0) =~= Seq::<(u16, u16)>::empty());
        let mut i: usize = 0;
        while i < percent_per_phase.len() && !progress.done
            invariant
                i <= percent_per_phase.len(),
                mechanics == (Mechanics::FixedPrice { deposit_token, sale_token }),
                deposit_token > 0,
                sale_token > 0,
                view == self@,
                params == discount_params.phases@,
                percents == percent_per_phase@,
                view.fixed_price_walk(
                    params,
                    *account,
                    deposit_token,
                    sale_token,
                    percents.subrange(0, i as int),
                    deposit,
                    available_for_sale,
                ) == Ok::<ProgressView, &'static str>(progress@),
            decreases percent_per_phase.len() - i,
        {
            let entry = percent_per_phase[i];
            proof {
                let prefix = percents.subrange(0, i + 1);
                assert(prefix.drop_last() =~= percents.subrange(0, i as int));
                assert(prefix.last() == entry);
            }
            let ghost before = progress@;
            match self.fixed_price_phase_step(
                progress,
                entry,
                account,
                discount_params,
                deposit_token,
                sale_token,
            ) {
                Ok(next) => {
                    progress = next;
                },
                Err(e) => {
                    proof {
                        assert(view.fixed_price_walk(
                            params,
                            *account,
                            deposit_token,
                            sale_token,
                            percents.subrange(0, i + 1),
                            deposit,
                            available_for_sale,
                        ) == view.fixed_price_step(
                            params,
                            *account,
                            deposit_token,
                            sale_token,
                            before,
                            entry,
                        ));
                        lemma_walk_stops(
                            view,
                            params,
                            *account,
                            deposit_token,
                            sale_token,
                            percents,
                            deposit,
                            available_for_sale,
                            i + 1,
                            percents.len() as int,
                        );
                        assert(percents.subrange(0, percents.len() as int) =~= percents);
                    }
                    return Err(e);
                },
            }
            i = i + 1;
        }
        proof {
            if i < percents.len() {
                lemma_walk_stops(
                    view,
                    params,
                    *account,
                    deposit_token,
                    sale_token,
                    percents,
                    deposit,
                    available_for_sale,
                    i as int,
                    percents.len() as int,
                );
            }
            assert(percents.subrange(0, percents.len() as int) =~= percents);
        }
        // What is left of the deposit goes to the public sale, within the sale tokens still
        // available.
        let remain_deposit = progress.remain_deposit;
        let remain_available = progress.remain_available;
        let phase_weights = progress.phase_weights;
        if remain_deposit > 0 && remain_available > 0 && is_public_sale_allowed {
            let sale_tokens = calculate_amount_of_sale_tokens(
                remain_deposit,
                deposit_token,
                sale_token,
            )?;
            if sale_tokens > remain_available {
                let capped_weight = calculate_weight_from_sale_tokens(
                    remain_available,
                    deposit_token,
                    sale_token,
                )?;
                // A weight that buys no whole sale token is not accepted.
                let bought = calculate_amount_of_sale_tokens(
                    capped_weight,
                    deposit_token,
                    sale_token,
                )?;
                let public_sale_weight = if bought == 0 {
                    0
                } else {
                    capped_weight
                };
                Ok(
                    DepositDistribution::WithDiscount {
                        phase_weights,
                        public_sale_weight,
                        refund: remain_deposit.saturating_sub(public_sale_weight),
                    },
                )
            } else {
                Ok(
                    DepositDistribution::WithDiscount {
                        phase_weights,
                        public_sale_weight: remain_deposit,
                        refund: 0,
                    },
                )
            }
        } else {
            Ok(
                DepositDistribution::WithDiscount {
                    phase_weights,
                    public_sale_weight: 0,
                    refund: remain_deposit,
                },
            )
        }
    }

    /// Returns the distribution of a deposit over the discount phases `percent_per_phase`
    /// (sorted), by the mechanics of the sale.
    pub fn calculate_deposit_distribution(
        &self,
        account: &IntentsAccount,
        deposit: u128,
        percent_per_phase: &Vec<(u16, u16)>,
        mechanics: Mechanics,
        discount_params: &DiscountParams,
        available_for_sale: u128,
        is_public_sale_allowed: bool,
    ) -> (r: Result<DepositDistribution, &'static str>)
        requires
            mechanics.valid(),
        ensures
            distribution_result(r) == self@.phases_distribution(
                discount_params.phases@,
                *account,
                deposit,
                percent_per_phase@,
                mechanics,
                available_for_sale,
                is_public_sale_allowed,
            ),
    {
        match mechanics {
            Mechanics::FixedPrice { .. } => self.deposit_distribution_fixed_price(
                percent_per_phase,
                deposit,
                account,
                discount_params,
                mechanics,
                available_for_sale,
                is_public_sale_allowed,
            ),
            Mechanics::PriceDiscovery => deposit_distribution_price_discovery(
                percent_per_phase,
                deposit,
            ),
        }
    }

    /// Returns how a deposit of `account` at `timestamp` is split between the discount phases
    /// open to it, the public sale and a refund.
    /// - Without discount parameters the whole deposit goes to the public sale.
    /// - Without an open discount phase the deposit goes to the public sale when it has
    ///   started, and is refunded otherwise.
    /// - A fixed-price deposit when nothing is left for sale, or any deposit whose
    ///   distribution cannot be computed, is refunded.
    pub fn get_deposit_distribution(
        &self,
        account: &IntentsAccount,
        deposit: u128,
        timestamp: u64,
        config: &LaunchpadConfig,
        total_sold_tokens: u128,
    ) -> (r: DepositDistribution)
        requires
            config.mechanics.valid(),
        ensures
            r@ == self@.deposit_distribution(
                *account,
                deposit,
                timestamp,
                *config,
                total_sold_tokens,
            ),
    {
        match &config.discounts {
            None => DepositDistribution::WithoutDiscount(deposit),
            Some(discount_params) => {
                let found = self.get_discount_percentage_per_phase(
                    account,
                    timestamp,
                    discount_params,
                );
                // Highest discount first: the lowest price is used first.
                let percentages_per_phase = sort_by_percentage(found);
                let is_public_sale_allowed = match discount_params.public_sale_start_time {
                    Some(start) => timestamp >= start,
                    None => true,
                };
                if percentages_per_phase.len() == 0 {
                    return if is_public_sale_allowed {
                        DepositDistribution::WithoutDiscount(deposit)
                    } else {
                        DepositDistribution::Refund(deposit)
                    };
                }
                let available_for_sale = config.sale_amount.saturating_sub(total_sold_tokens);
                if available_for_sale == 0 && config.mechanics.is_fixed_price_mechanics() {
                    return DepositDistribution::Refund(deposit);
                }
                match self.calculate_deposit_distribution(
                    account,
                    deposit,
                    &percentages_per_phase,
                    config.mechanics,
                    discount_params,
                    available_for_sale,
                    is_public_sale_allowed,
                ) {
                    Ok(distribution) => distribution,
                    Err(_) => DepositDistribution::Refund(deposit),
                }
            },
        }
    }
}

} // verus!

verus! {

/// Rounding down `n / d` loses less than one `d`.
proof fn lemma_floor_bounds(n: int, d: int)
    requires
        0 <= n,
        0 < d,
    ensures
        (n / d) * d <= n,
        n < (n / d + 1) * d,
{
    lemma_fundamental_div_mod(n, d);
    lemma_mod_pos_bound(n, d);
    assert((n / d) * d == d * (n / d)) by (nonlinear_arith);
    assert((n / d + 1) * d == d * (n / d) + d) by (nonlinear_arith);
}

proof fn lemma_weights_total_push(weights: Seq<(u16, u128)>, entry: (u16, u128))
    ensures
        weights_total(weights.push(entry)) == weights_total(weights) + entry.1,
{
    assert(weights.push(entry).drop_last() =~= weights);
}

/// While a fixed-price distribution walks through the phases, its weights buy, added up,
/// at most the sale tokens taken off what was available; once a phase took the whole deposit
/// uncapped, they buy less than one sale token more.
spec fn walk_within(acc: ProgressView, available: u128, deposit_token: u128, sale_token: u128) -> bool {
    let bought = weights_total(acc.phase_weights) * sale_token;
    let taken = available - acc.remain_available;
    &&& acc.remain_available <= available
    &&& (bought <= taken * deposit_token || (acc.done && acc.remain_deposit == 0 && bought < (
    taken + 1) * deposit_token))
}

/// One phase keeps the walk within what was available.
proof fn lemma_step_within(
    view: DiscountStateView,
    params: Seq<DiscountPhase>,
    account: IntentsAccount,
    deposit_token: u128,
    sale_token: u128,
    acc: ProgressView,
    entry: (u16, u16),
    available: u128,
)
    requires
        deposit_token > 0,
        sale_token > 0,
        walk_within(acc, available, deposit_token, sale_token),
    ensures
        view.fixed_price_step(params, account, deposit_token, sale_token, acc, entry) matches Ok(
            next,
        ) ==> walk_within(next, available, deposit_token, sale_token),
{
    let (id, percent) = entry;
    let d = deposit_token as int;
    let s = sale_token as int;
    if !acc.done {
        if let Ok(weight) = spec_weight_with_discount(acc.remain_deposit, percent) {
            if let Some(phase) = params_of(params, id) {
                if let Ok(sale) = spec_amount_of_sale_tokens(weight, deposit_token, sale_token) {
                    let existed_account = account_tokens_in_phase(view.phases, account, id);
                    let existed_phases = group_sold(view.phases, view.linked_phases, id);
                    if phase.spec_min_limit_passed(sale, existed_account) {
                        let per_account = existed_account.saturating_add(sale);
                        let per_phases = existed_phases.saturating_add(
                            acc.sold_in_previous_phases,
                        ).saturating_add(sale);
                        let max_exceeded = max3(
                            phases_limit_excess(view.phases, view.linked_phases, per_phases, id),
                            phase.spec_account_limit_excess(per_account),
                            sale.saturating_sub(acc.remain_available),
                        );
                        let w0 = weights_total(acc.phase_weights) as int;
                        let taken = available - acc.remain_available;
                        if max_exceeded > 0 {
                            let tokens = sale.saturating_sub(max_exceeded);
                            assert(tokens <= acc.remain_available);
                            if let Ok(w) = spec_weight_from_sale_tokens(
                                tokens,
                                deposit_token,
                                sale_token,
                            ) {
                                lemma_weights_total_push(acc.phase_weights, (id, w));
                                lemma_floor_bounds(tokens as int * d, s);
                                assert(w as int == (tokens as int * d) / s);
                                assert((w0 + w) * s <= (taken + tokens) * d) by (nonlinear_arith)
                                    requires
                                        w0 * s <= taken * d,
                                        w * s <= tokens * d,
                                ;
                            }
                        } else {
                            assert(sale <= acc.remain_available);
                            lemma_weights_total_push(acc.phase_weights, (id, weight));
                            lemma_floor_bounds(weight as int * s, d);
                            assert(sale as int == (weight as int * s) / d);
                            assert((w0 + weight) * s < (taken + sale + 1) * d) by (nonlinear_arith)
                                requires
                                    w0 * s <= taken * d,
                                    weight * s < (sale + 1) * d,
                            ;
                        }
                    }
                }
            }
        }
    }
}

/// The walk through the phases stays within what was available.
proof fn lemma_walk_within(
    view: DiscountStateView,
    params: Seq<DiscountPhase>,
    account: IntentsAccount,
    deposit_token: u128,
    sale_token: u128,
    percents: Seq<(u16, u16)>,
    deposit: u128,
    available: u128,
)
    requires
        deposit_token > 0,
        sale_token > 0,
    ensures
        view.fixed_price_walk(
            params,
            account,
            deposit_token,
            sale_token,
            percents,
            deposit,
            available,
        ) matches Ok(acc) ==> walk_within(acc, available, deposit_token, sale_token),
    decreases percents.len(),
{
    if percents.len() == 0 {
        let acc = initial_progress(deposit, available);
        assert(weights_total(acc.phase_weights) == 0);
        assert(weights_total(acc.phase_weights) * sale_token == 0);
        assert(0 * (deposit_token as int) == 0);
    } else {
        lemma_walk_within(
            view,
            params,
            account,
            deposit_token,
            sale_token,
            percents.drop_last(),
            deposit,
            available,
        );
        if let Ok(acc) = view.fixed_price_walk(
            params,
            account,
            deposit_token,
            sale_token,
            percents.drop_last(),
            deposit,
            available,
        ) {
            lemma_step_within(
                view,
                params,
                account,
                deposit_token,
                sale_token,
                acc,
                percents.last(),
                available,
            );
        }
    }
}

/// A fixed-price distribution never sells more sale tokens than are available: its phase
/// weights and its public-sale weight, added up, buy at most the available sale tokens.
pub proof fn lemma_fixed_price_distribution_within_available(
    view: DiscountStateView,
    params: Seq<DiscountPhase>,
    account: IntentsAccount,
    deposit_token: u128,
    sale_token: u128,
    percents: Seq<(u16, u16)>,
    deposit: u128,
    available: u128,
    public_sale_allowed: bool,
)
    requires
        deposit_token > 0,
        sale_token > 0,
    ensures
        view.fixed_price_distribution(
            params,
            account,
            deposit_token,
            sale_token,
            percents,
            deposit,
            available,
            public_sale_allowed,
        ) matches Ok(DistributionView::WithDiscount { phase_weights, public_sale_weight, .. })
            ==> (weights_total(phase_weights) + public_sale_weight) * sale_token / (deposit_token as int)
            <= available,
{
    lemma_walk_within(
        view,
        params,
        account,
        deposit_token,
        sale_token,
        percents,
        deposit,
        available,
    );
    let d = deposit_token as int;
    let s = sale_token as int;
    if let Ok(acc) = view.fixed_price_walk(
        params,
        account,
        deposit_token,
        sale_token,
        percents,
        deposit,
        available,
    ) {
        let w0 = weights_total(acc.phase_weights) as int;
        let taken = available - acc.remain_available;
        // The public-sale weight buys less than one sale token more than is still available.
        let public = if acc.remain_deposit > 0 && acc.remain_available > 0 && public_sale_allowed {
            match spec_amount_of_sale_tokens(acc.remain_deposit, deposit_token, sale_token) {
                Err(_) => 0int,
                Ok(sale) => if sale > acc.remain_available {
                    match spec_weight_from_sale_tokens(acc.remain_available, deposit_token, sale_token) {
                        Err(_) => 0int,
                        Ok(weight) => if spec_amount_of_sale_tokens(weight, deposit_token, sale_token)
                            matches Ok(bought) && bought == 0 {
                            0int
                        } else {
                            weight as int
                        },
                    }
                } else {
                    acc.remain_deposit as int
                },
            }
        } else {
            0int
        };
        if public != 0 {
            let rem = acc.remain_available as int;
            let sale = spec_amount_of_sale_tokens(acc.remain_deposit, deposit_token, sale_token)->Ok_0;
            if sale > acc.remain_available {
                lemma_floor_bounds(rem * d, s);
                assert(public == (rem * d) / s);
                assert(public * s < (rem + 1) * d) by (nonlinear_arith)
                    requires
                        public * s <= rem * d,
                        d > 0,
                ;
            } else {
                lemma_floor_bounds(acc.remain_deposit as int * s, d);
                assert(sale as int == (acc.remain_deposit as int * s) / d);
                assert(public * s < (rem + 1) * d) by (nonlinear_arith)
                    requires
                        public * s < (sale + 1) * d,
                        sale <= rem,
                        d > 0,
                ;
            }
        }
        assert((w0 + public) * s < (available + 1) * d) by (nonlinear_arith)
            requires
                w0 * s <= taken * d || w0 * s < (taken + 1) * d,
                acc.remain_deposit > 0 && acc.remain_available > 0 ==> w0 * s <= taken * d,
                public == 0 || public * s < (acc.remain_available + 1) * d,
                public == 0 || acc.remain_deposit > 0 && acc.remain_available > 0,
                taken + acc.remain_available == available,
                0 <= public,
                0 <= w0,
                d > 0,
                s > 0,
        ;
        if let Ok(DistributionView::WithDiscount { phase_weights, public_sale_weight, .. }) =
            public_sale_part(acc, public_sale_allowed, deposit_token, sale_token) {
            assert(phase_weights == acc.phase_weights);
            assert(public_sale_weight as int == public);
            lemma_floor_bounds((w0 + public) * s, d);
            assert(((w0 + public) * s / d) * d < (available + 1) * d);
            assert((w0 + public) * s / d < available + 1) by (nonlinear_arith)
                requires
                    ((w0 + public) * s / d) * d < (available + 1) * d,
                    d > 0,
            ;
        }
    }
}

/// The discounted distribution of a fixed-price deposit never sells more sale tokens than the
/// sale amount leaves: its phase weights and its public-sale weight, added up, buy at most the
/// sale amount minus the tokens already sold.
pub proof fn lemma_deposit_distribution_never_oversells(
    view: DiscountStateView,
    account: IntentsAccount,
    deposit: u128,
    timestamp: u64,
    config: LaunchpadConfig,
    total_sold_tokens: u128,
)
    requires
        config.mechanics is FixedPrice,
        config.mechanics.valid(),
    ensures
        view.deposit_distribution(account, deposit, timestamp, config, total_sold_tokens) matches DistributionView::WithDiscount { phase_weights, public_sale_weight, .. }
            ==> (weights_total(phase_weights) + public_sale_weight) * config.mechanics.price().1
            / (config.mechanics.price().0 as int) <= config.sale_amount - total_sold_tokens,
{
    if let Some(params) = config.discounts {
        let percents = sorted_by_percentage(
            percentages_of(
                view.phases,
                params.phases@,
                active_indices(params.phases@, timestamp),
                account,
            ),
        );
        let public_sale_allowed = match params.public_sale_start_time {
            Some(start) => timestamp >= start,
            None => true,
        };
        let available = config.sale_amount.saturating_sub(total_sold_tokens);
        let (d, s) = config.mechanics.price();
        lemma_fixed_price_distribution_within_available(
            view,
            params.phases@,
            account,
            d,
            s,
            percents,
            deposit,
            available,
            public_sale_allowed,
        );
    }
}

} // verus!

verus! {

/// The characterization of `insert_pos` on a sequence sorted by percentage, highest first:
/// every entry before the position has at least the percentage of `x`, and the entry at the
/// position (if any) has less.
proof fn lemma_insert_pos_bounds(s: Seq<(u16, u16)>, x: (u16, u16))
    ensures
        0 <= insert_pos(s, x) <= s.len(),
        forall|k: int| 0 <= k < insert_pos(s, x) ==> #[trigger] s[k].1 >= x.1,
        insert_pos(s, x) < s.len() ==> s[insert_pos(s, x)].1 < x.1,
    decreases s.len(),
{
    if s.len() > 0 && s[0].1 >= x.1 {
        lemma_insert_pos_bounds(s.drop_first(), x);
        assert forall|k: int| 0 <= k < insert_pos(s, x) implies #[trigger] s[k].1 >= x.1 by {
            if k > 0 {
                assert(s[k] == s.drop_first()[k - 1]);
            }
        }
    }
}

/// Sorting by percentage keeps the entries (as a multiset) and orders them by percentage,
/// highest first.
pub proof fn lemma_sorted_by_percentage(s: Seq<(u16, u16)>)
    ensures
        sorted_by_percentage(s).len() == s.len(),
        sorted_by_percentage(s).to_multiset() == s.to_multiset(),
        forall|i: int, j: int|
            0 <= i < j < s.len() ==> #[trigger] sorted_by_percentage(s)[i].1
                >= #[trigger] sorted_by_percentage(s)[j].1,
    decreases s.len(),
{
    broadcast use vstd::multiset::group_multiset_axioms;
    broadcast use vstd::seq_lib::group_seq_properties;

    if s.len() > 0 {
        let t = sorted_by_percentage(s.drop_last());
        let x = s.last();
        lemma_sorted_by_percentage(s.drop_last());
        lemma_insert_pos_bounds(t, x);
        let p = insert_pos(t, x);
        let r = t.insert(p, x);
        assert(r == sorted_by_percentage(s));
        let front = t.subrange(0, p);
        let back = t.subrange(p, t.len() as int);
        assert(t =~= front + back);
        assert(r =~= front.push(x) + back);
        vstd::seq_lib::lemma_multiset_commutative(front, back);
        vstd::seq_lib::lemma_multiset_commutative(front.push(x), back);
        assert(s =~= s.drop_last().push(x));
        assert(r.to_multiset() =~= s.to_multiset());
        assert forall|i: int, j: int| 0 <= i < j < r.len() implies #[trigger] r[i].1
            >= #[trigger] r[j].1 by {
            if j < p {
                assert(r[i] == t[i] && r[j] == t[j]);
            } else if j == p {
                assert(r[i] == t[i]);
            } else if i < p {
                assert(r[i] == t[i] && r[j] == t[j - 1]);
                assert(t[i].1 >= x.1);
                assert(t[p].1 < x.1);
                if j - 1 > p {
                    assert(t[p].1 >= t[j - 1].1);
                }
            } else if i == p {
                assert(r[j] == t[j - 1]);
                assert(t[p].1 < x.1);
                if j - 1 > p {
                    assert(t[p].1 >= t[j - 1].1);
                }
            } else {
                assert(r[i] == t[i - 1] && r[j] == t[j - 1]);
            }
        }
    }
}

/// A discount never lowers the weight of a deposit, and taking it off again never gives back
/// more than the deposit.
pub proof fn lemma_discount_round_trip(deposit: u128, percent: u16)
    ensures
        spec_weight_with_discount(deposit, percent) matches Ok(w) ==> w >= deposit && (
        spec_weight_without_discount(w, percent) matches Ok(back) && back <= deposit),
{
    if let Ok(w) = spec_weight_with_discount(deposit, percent) {
        let x = deposit as int;
        let m = 10_000 + percent as int;
        assert(w == (x * m) / 10_000);
        assert((x * m) / 10_000 >= x) by (nonlinear_arith)
            requires
                m >= 10_000,
                x >= 0,
        ;
        assert((w as int * 10_000) / m <= x) by (nonlinear_arith)
            requires
                w == (x * m) / 10_000,
                m >= 10_000,
                x >= 0,
        ;
    }
}

} // verus!
