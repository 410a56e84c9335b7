//! Sale-token allocations and the part of them released by a vesting schedule.
use crate::types::{InvestmentAmount, LaunchpadConfig, Mechanics, VestingSchedule, VestingScheme};
use crate::wide::{mul_div, spec_mul_div};
use vstd::arithmetic::div_mod::{
    lemma_div_is_ordered, lemma_div_multiples_vanish, lemma_fundamental_div_mod,
};
use vstd::arithmetic::mul::{lemma_mul_inequality, lemma_mul_is_commutative};
use vstd::prelude::*;

verus! {

/// The sale tokens allocated to a weight: the weight itself for a fixed price, and the
/// weight's share of the sale amount for price discovery.
pub open spec fn spec_user_allocation(weight: u128, total_sold_tokens: u128, config: LaunchpadConfig)
    -> Result<u128, &'static str> {
    match config.mechanics {
        Mechanics::FixedPrice { .. } => Ok(weight),
        Mechanics::PriceDiscovery => if weight == 0 || total_sold_tokens == 0 {
            Ok(0)
        } else {
            spec_mul_div(weight, config.sale_amount, total_sold_tokens)
        },
    }
}

/// Calculates the total assets for user allocation based on the mechanics.
pub fn user_allocation(weight: u128, total_sold_tokens: u128, config: &LaunchpadConfig) -> (r:
    Result<u128, &'static str>)
    ensures
        r == spec_user_allocation(weight, total_sold_tokens, *config),
{
    match config.mechanics {
        Mechanics::FixedPrice { .. } => Ok(weight),
        Mechanics::PriceDiscovery => {
            if weight == 0 || total_sold_tokens == 0 {
                return Ok(0);
            }
            mul_div(weight, config.sale_amount, total_sold_tokens)
        },
    }
}

/// The part of an allocation released at once by a vesting schedule.
pub open spec fn spec_instant_claim(vesting: VestingSchedule, allocation: u128) -> Result<
    u128,
    &'static str,
> {
    match vesting.instant_claim_percentage {
        Some(p) => spec_mul_div(allocation, p as u128, 10_000),
        None => Ok(0),
    }
}

impl VestingSchedule {
    /// Returns the part of `allocation` released at once (instant claim percentage in basis
    /// points).
    pub fn get_instant_claim_amount(&self, allocation: u128) -> (r: Result<u128, &'static str>)
        ensures
            r == spec_instant_claim(*self, allocation),
    {
        match self.instant_claim_percentage {
            Some(p) => mul_div(allocation, p as u128, 10_000),
            None => Ok(0),
        }
    }

    /// The schedule's time offsets can be added to `vesting_start` without overflow.
    pub open spec fn fits_from(self, vesting_start: u64) -> bool {
        vesting_start + self.cliff_period.nanos <= u64::MAX && vesting_start
            + self.vesting_period.nanos <= u64::MAX
    }
}

/// The tokens of `allocation` released by `vesting` (started at `vesting_start`) at
/// `timestamp`, not subtracting what was already claimed.
pub open spec fn spec_vested(
    allocation: u128,
    vesting: Option<VestingSchedule>,
    vesting_start: u64,
    timestamp: u64,
) -> Result<u128, &'static str> {
    match vesting {
        None => Ok(allocation),
        Some(v) => {
            let cliff_end = vesting_start + v.cliff_period.nanos;
            let vesting_end = vesting_start + v.vesting_period.nanos;
            match spec_instant_claim(v, allocation) {
                Err(e) => Err(e),
                Ok(instant) => if timestamp < cliff_end {
                    Ok(instant)
                } else if timestamp >= vesting_end {
                    Ok(allocation)
                } else if instant > allocation {
                    Err("Instant claim is more than total allocation")
                } else {
                    let (from, period) = match v.vesting_scheme {
                        VestingScheme::Immediate => (vesting_start as int, v.vesting_period.nanos
                            as int),
                        VestingScheme::AfterCliff => (cliff_end, v.vesting_period.nanos
                            - v.cliff_period.nanos),
                    };
                    let linear = (allocation - instant) * (timestamp - from) / period;
                    if linear + instant > u128::MAX {
                        Err("Addition overflow")
                    } else {
                        Ok((linear + instant) as u128)
                    }
                },
            }
        },
    }
}

/// Returns the available assets for individual vesting claim based on the allocation and
/// vesting schedule. Notice that the function doesn't subtract already claimed tokens.
pub fn available_for_individual_vesting_claim(
    allocation: u128,
    vesting: Option<&VestingSchedule>,
    vesting_start: u64,
    timestamp: u64,
) -> (r: Result<u128, &'static str>)
    requires
        vesting matches Some(v) ==> v.fits_from(vesting_start),
    ensures
        r == spec_vested(
            allocation,
            match vesting {
                Some(v) => Some(*v),
                None => None,
            },
            vesting_start,
            timestamp,
        ),
{
    if let Some(vesting) = vesting {
        let after_cliff_start = vesting_start + vesting.cliff_period.as_nanos();
        let instant_claim = vesting.get_instant_claim_amount(allocation)?;

        if timestamp < after_cliff_start {
            return Ok(instant_claim);
        } else if timestamp >= vesting_start + vesting.vesting_period.as_nanos() {
            return Ok(allocation);
        }
        let (claim_increasing_start, distribution_period) = match vesting.vesting_scheme {
            VestingScheme::Immediate => (vesting_start, vesting.vesting_period.as_nanos()),
            VestingScheme::AfterCliff => (
                after_cliff_start,
                vesting.vesting_period.as_nanos() - vesting.cliff_period.as_nanos(),
            ),
        };

        let elapsed = timestamp.saturating_sub(claim_increasing_start);
        let remaining = match allocation.checked_sub(instant_claim) {
            Some(x) => x,
            None => return Err("Instant claim is more than total allocation"),
        };
        if distribution_period == 0 {
            return Err("Division by zero");
        }
        proof {
            lemma_scaled_share_bounded(remaining as nat, elapsed as nat, distribution_period as nat);
        }
        let linear = mul_div(remaining, elapsed as u128, distribution_period as u128)?;
        match linear.checked_add(instant_claim) {
            Some(v) => Ok(v),
            None => Err("Addition overflow"),
        }
    } else {
        Ok(allocation)
    }
}

/// `amount * part / whole` does not exceed `amount` when `part <= whole`.
pub proof fn lemma_scaled_share_bounded(amount: nat, part: nat, whole: nat)
    requires
        part <= whole,
        whole > 0,
    ensures
        amount * part / whole <= amount,
{
    lemma_mul_inequality(part as int, whole as int, amount as int);
    lemma_mul_is_commutative(part as int, amount as int);
    lemma_mul_is_commutative(whole as int, amount as int);
    lemma_div_is_ordered((amount * part) as int, (amount * whole) as int, whole as int);
    lemma_div_multiples_vanish(amount as int, whole as int);
}

/// The tokens released at `timestamp` for an investment: its allocation, vested from the TGE
/// (or the end of the sale when there is no TGE).
pub open spec fn spec_available_for_claim(
    investment: InvestmentAmount,
    total_sold_tokens: u128,
    config: LaunchpadConfig,
    timestamp: u64,
) -> Result<u128, &'static str> {
    match spec_user_allocation(investment.weight, total_sold_tokens, config) {
        Err(e) => Err(e),
        Ok(total_assets) => spec_vested(
            total_assets,
            config.vesting_schedule,
            vesting_start_of(config),
            timestamp,
        ),
    }
}

/// The start of the vesting of the sale: the TGE, or the end of the sale without a TGE.
pub open spec fn vesting_start_of(config: LaunchpadConfig) -> u64 {
    match config.tge {
        Some(t) => t,
        None => config.end_date,
    }
}

/// The vesting schedule of the sale can be applied from its vesting start without overflow.
pub open spec fn vesting_fits(config: LaunchpadConfig) -> bool {
    config.vesting_schedule matches Some(v) ==> v.fits_from(vesting_start_of(config))
}

/// Calculates the available assets for claim based on the mechanics and vesting schedule.
/// Notice that the function doesn't subtract already claimed tokens.
pub fn available_for_claim(
    investment: &InvestmentAmount,
    total_sold_tokens: u128,
    config: &LaunchpadConfig,
    timestamp: u64,
) -> (r: Result<u128, &'static str>)
    requires
        vesting_fits(*config),
    ensures
        r == spec_available_for_claim(*investment, total_sold_tokens, *config, timestamp),
{
    let total_assets = user_allocation(investment.weight, total_sold_tokens, config)?;
    let start = match config.tge {
        Some(t) => t,
        None => config.end_date,
    };
    available_for_individual_vesting_claim(
        total_assets,
        config.vesting_schedule.as_ref(),
        start,
        timestamp,
    )
}

/// A price-discovery allocation never exceeds the sale amount when the weight is part of the
/// total sold tokens: every participant gets at most the whole sale.
pub proof fn lemma_allocation_within_sale_amount(
    weight: u128,
    total_sold_tokens: u128,
    config: LaunchpadConfig,
)
    requires
        config.mechanics is PriceDiscovery,
        weight <= total_sold_tokens,
    ensures
        spec_user_allocation(weight, total_sold_tokens, config) matches Ok(a) && a
            <= config.sale_amount,
{
    if weight != 0 && total_sold_tokens != 0 {
        let w = weight as int;
        let s = config.sale_amount as int;
        let t = total_sold_tokens as int;
        lemma_mul_inequality(w, t, s);
        lemma_mul_is_commutative(t, s);
        lemma_div_is_ordered(w * s, s * t, t);
        lemma_div_multiples_vanish(s, t);
    }
}

/// The sum of a list of weights.
pub open spec fn weights_sum(weights: Seq<u128>) -> int
    decreases weights.len(),
{
    if weights.len() == 0 {
        0
    } else {
        weights_sum(weights.drop_last()) + weights.last()
    }
}

/// The sum of the allocations of a list of weights against `total_sold_tokens`.
pub open spec fn allocations_sum(weights: Seq<u128>, total_sold_tokens: u128, config: LaunchpadConfig)
    -> int
    decreases weights.len(),
{
    if weights.len() == 0 {
        0
    } else {
        allocations_sum(weights.drop_last(), total_sold_tokens, config) + match spec_user_allocation(
            weights.last(),
            total_sold_tokens,
            config,
        ) {
            Ok(a) => a as int,
            Err(_) => 0,
        }
    }
}

/// Every weight of a list is at most their sum.
proof fn lemma_weight_within_sum(weights: Seq<u128>)
    ensures
        weights_sum(weights) >= 0,
        forall|i: int| 0 <= i < weights.len() ==> #[trigger] weights[i] <= weights_sum(weights),
    decreases weights.len(),
{
    if weights.len() > 0 {
        let rest = weights.drop_last();
        lemma_weight_within_sum(rest);
        assert forall|i: int| 0 <= i < weights.len() implies #[trigger] weights[i] <= weights_sum(
            weights,
        ) by {
            if i < rest.len() {
                assert(rest[i] == weights[i]);
            }
        }
    }
}

/// A price-discovery allocation of a weight within the total sold tokens is the weight's
/// share of the sale amount, rounded down.
proof fn lemma_allocation_is_share(weight: u128, total_sold_tokens: u128, config: LaunchpadConfig)
    requires
        config.mechanics is PriceDiscovery,
        weight <= total_sold_tokens,
        total_sold_tokens > 0,
    ensures
        spec_user_allocation(weight, total_sold_tokens, config) == Ok::<u128, &'static str>(
            ((weight as int * config.sale_amount as int) / total_sold_tokens as int) as u128,
        ),
        ((weight as int * config.sale_amount as int) / total_sold_tokens as int) >= 0,
{
    lemma_allocation_within_sale_amount(weight, total_sold_tokens, config);
    vstd::arithmetic::div_mod::lemma_div_pos_is_pos(
        weight as int * config.sale_amount as int,
        total_sold_tokens as int,
    );
}

/// Weighted by the total, the allocations of a list of weights sum to at most the weights'
/// share of the sale amount, and fall short of it by less than one total per weight.
proof fn lemma_allocations_bounds(weights: Seq<u128>, total_sold_tokens: u128, config: LaunchpadConfig)
    requires
        config.mechanics is PriceDiscovery,
        total_sold_tokens > 0,
        forall|i: int| 0 <= i < weights.len() ==> #[trigger] weights[i] <= total_sold_tokens,
    ensures
        total_sold_tokens * allocations_sum(weights, total_sold_tokens, config)
            <= config.sale_amount * weights_sum(weights),
        config.sale_amount * weights_sum(weights) < total_sold_tokens * allocations_sum(
            weights,
            total_sold_tokens,
            config,
        ) + weights.len() * total_sold_tokens + (if weights.len() == 0 {
            1int
        } else {
            0
        }),
    decreases weights.len(),
{
    if weights.len() > 0 {
        let rest = weights.drop_last();
        assert forall|i: int| 0 <= i < rest.len() implies #[trigger] rest[i] <= total_sold_tokens by {
            assert(rest[i] == weights[i]);
        }
        lemma_allocations_bounds(rest, total_sold_tokens, config);
        let w = weights.last();
        assert(w == weights[weights.len() - 1]);
        lemma_allocation_is_share(w, total_sold_tokens, config);
        let t = total_sold_tokens as int;
        let s = config.sale_amount as int;
        let a = (w as int * s) / t;
        lemma_fundamental_div_mod(w as int * s, t);
        let ar = allocations_sum(rest, total_sold_tokens, config);
        let wr = weights_sum(rest);
        let n = rest.len() as int;
        assert(allocations_sum(weights, total_sold_tokens, config) == ar + a);
        assert(weights_sum(weights) == wr + w);
        assert(t * (ar + a) <= s * (wr + w) && s * (wr + w) < t * (ar + a) + (n + 1) * t) by (nonlinear_arith)
            requires
                t > 0,
                t * ar <= s * wr,
                s * wr < t * ar + n * t + (if n == 0 { 1int } else { 0 }),
                n >= 0,
                n == 0 ==> ar == 0 && wr == 0,
                w as int * s == t * a + (w as int * s) % t,
                0 <= (w as int * s) % t < t,
        ;
    }
}

/// Price discovery shares out at most the sale amount: when the weights of the participants
/// add up to the total sold tokens, their allocations add up to at most the sale amount, and
/// rounding down loses less than one sale token per participant.
pub proof fn lemma_allocations_share_the_sale_amount(
    weights: Seq<u128>,
    total_sold_tokens: u128,
    config: LaunchpadConfig,
)
    requires
        config.mechanics is PriceDiscovery,
        total_sold_tokens > 0,
        weights_sum(weights) == total_sold_tokens,
    ensures
        allocations_sum(weights, total_sold_tokens, config) <= config.sale_amount,
        config.sale_amount < allocations_sum(weights, total_sold_tokens, config) + weights.len(),
{
    lemma_weight_within_sum(weights);
    lemma_allocations_bounds(weights, total_sold_tokens, config);
    let t = total_sold_tokens as int;
    let s = config.sale_amount as int;
    let a = allocations_sum(weights, total_sold_tokens, config);
    let n = weights.len() as int;
    assert(n > 0);
    assert(a <= s && s < a + n) by (nonlinear_arith)
        requires
            t > 0,
            t * a <= s * t,
            s * t < t * a + n * t,
    ;
}

} // verus!

verus! {

/// The part of the allocation that a schedule releases at once is computed and is at most
/// the allocation.
pub open spec fn instant_within(v: VestingSchedule, allocation: u128) -> bool {
    spec_instant_claim(v, allocation) matches Ok(i) && i <= allocation
}

/// A schedule whose instant percentage is at most 100% releases at once at most the
/// allocation.
pub proof fn lemma_instant_claim_bounded(v: VestingSchedule, allocation: u128)
    requires
        v.instant_claim_percentage matches Some(p) ==> p <= 10_000,
    ensures
        instant_within(v, allocation),
{
    if let Some(p) = v.instant_claim_percentage {
        lemma_scaled_share_bounded(allocation as nat, p as nat, 10_000);
    }
}

/// Vesting releases at most the allocation, whatever the time.
pub proof fn lemma_vested_within_allocation(
    allocation: u128,
    vesting: Option<VestingSchedule>,
    vesting_start: u64,
    timestamp: u64,
)
    requires
        vesting matches Some(v) ==> instant_within(v, allocation),
    ensures
        spec_vested(allocation, vesting, vesting_start, timestamp) matches Ok(x) && x
            <= allocation,
{
    if let Some(v) = vesting {
        let instant = spec_instant_claim(v, allocation)->Ok_0;
        let cliff_end = vesting_start + v.cliff_period.nanos;
        let vesting_end = vesting_start + v.vesting_period.nanos;
        if cliff_end <= timestamp && timestamp < vesting_end {
            let (from, period) = match v.vesting_scheme {
                VestingScheme::Immediate => (vesting_start as int, v.vesting_period.nanos as int),
                VestingScheme::AfterCliff => (cliff_end, v.vesting_period.nanos
                    - v.cliff_period.nanos),
            };
            lemma_scaled_share_bounded(
                (allocation - instant) as nat,
                (timestamp - from) as nat,
                period as nat,
            );
        }
    }
}

/// `amount * part / whole` grows with `part`.
proof fn lemma_scaled_share_monotone(amount: nat, part1: nat, part2: nat, whole: nat)
    requires
        part1 <= part2,
        whole > 0,
    ensures
        amount * part1 / whole <= amount * part2 / whole,
{
    lemma_mul_inequality(part1 as int, part2 as int, amount as int);
    lemma_mul_is_commutative(part1 as int, amount as int);
    lemma_mul_is_commutative(part2 as int, amount as int);
    lemma_div_is_ordered((amount * part1) as int, (amount * part2) as int, whole as int);
}

/// Vesting never takes back what it released: the released amount grows with time.
pub proof fn lemma_vested_monotone(
    allocation: u128,
    vesting: Option<VestingSchedule>,
    vesting_start: u64,
    t1: u64,
    t2: u64,
)
    requires
        t1 <= t2,
        vesting matches Some(v) ==> instant_within(v, allocation),
    ensures
        spec_vested(allocation, vesting, vesting_start, t1) matches Ok(x1) && spec_vested(
            allocation,
            vesting,
            vesting_start,
            t2,
        ) matches Ok(x2) && x1 <= x2,
{
    lemma_vested_within_allocation(allocation, vesting, vesting_start, t1);
    lemma_vested_within_allocation(allocation, vesting, vesting_start, t2);
    if let Some(v) = vesting {
        let instant = spec_instant_claim(v, allocation)->Ok_0;
        let cliff_end = vesting_start + v.cliff_period.nanos;
        let vesting_end = vesting_start + v.vesting_period.nanos;
        let (from, period) = match v.vesting_scheme {
            VestingScheme::Immediate => (vesting_start as int, v.vesting_period.nanos as int),
            VestingScheme::AfterCliff => (cliff_end, v.vesting_period.nanos - v.cliff_period.nanos),
        };
        if cliff_end <= t1 && t2 < vesting_end {
            lemma_scaled_share_monotone(
                (allocation - instant) as nat,
                (t1 - from) as nat,
                (t2 - from) as nat,
                period as nat,
            );
        }
    }
}

/// Once the vesting period is over, the whole allocation is released.
pub proof fn lemma_vested_fully_after_period(
    allocation: u128,
    v: VestingSchedule,
    vesting_start: u64,
    timestamp: u64,
)
    requires
        v.cliff_period.nanos <= v.vesting_period.nanos,
        timestamp >= vesting_start + v.vesting_period.nanos,
        instant_within(v, allocation),
    ensures
        spec_vested(allocation, Some(v), vesting_start, timestamp) == Ok::<u128, &'static str>(
            allocation,
        ),
{
}

/// A sale's tokens vest from its TGE when it has one, and from the end of the sale otherwise:
/// what an investor can claim is its allocation vested from that moment. Before the cliff
/// that follows it only the instant part is released; once both the cliff and the vesting
/// period after it are over, and without a vesting schedule, the whole allocation is.
pub proof fn lemma_claim_vests_from_tge(
    investment: InvestmentAmount,
    total_sold_tokens: u128,
    config: LaunchpadConfig,
    timestamp: u64,
)
    ensures
        spec_user_allocation(investment.weight, total_sold_tokens, config) matches Ok(allocation)
            ==> {
            let start: u64 = match config.tge {
                Some(t) => t,
                None => config.end_date,
            };
            let released = spec_available_for_claim(
                investment,
                total_sold_tokens,
                config,
                timestamp,
            );
            &&& released == spec_vested(allocation, config.vesting_schedule, start, timestamp)
            &&& match config.vesting_schedule {
                Some(v) => {
                    &&& timestamp < start + v.cliff_period.nanos ==> released
                        == spec_instant_claim(v, allocation)
                    &&& start + v.cliff_period.nanos <= timestamp && start + v.vesting_period.nanos
                        <= timestamp && spec_instant_claim(v, allocation) is Ok ==> released
                        == Ok::<u128, &'static str>(allocation)
                },
                None => true,
            }
            &&& (config.vesting_schedule is None ==> released == Ok::<u128, &'static str>(
                allocation,
            ))
        },
{
}

} // verus!
