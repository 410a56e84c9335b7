//! Applying a deposit to an investment and to the sale totals.
use crate::types::{
    saturate, weights_total, DepositDistribution, DistributionView, InvestmentAmount,
    LaunchpadConfig, Mechanics,
};
use crate::wide::{mul_div, spec_mul_div};
use vstd::arithmetic::div_mod::{
    lemma_div_is_ordered, lemma_fundamental_div_mod, lemma_hoist_over_denominator,
};
use vstd::arithmetic::mul::{lemma_mul_inequality, lemma_mul_is_commutative};
use vstd::prelude::*;

verus! {

/// Sale tokens bought by `amount` deposit units at the price `deposit_token : sale_token`.
pub open spec fn spec_amount_of_sale_tokens(amount: u128, deposit_token: u128, sale_token: u128)
    -> Result<u128, &'static str> {
    spec_mul_div(amount, sale_token, deposit_token)
}

/// Deposit units that buy `amount` sale tokens at the price `deposit_token : sale_token`.
pub open spec fn spec_weight_from_sale_tokens(amount: u128, deposit_token: u128, sale_token: u128)
    -> Result<u128, &'static str> {
    spec_mul_div(amount, deposit_token, sale_token)
}

/// Calculates the number of sale tokens based on the amount of deposit and price fraction.
pub fn calculate_amount_of_sale_tokens(amount: u128, deposit_token: u128, sale_token: u128) -> (r:
    Result<u128, &'static str>)
    requires
        deposit_token > 0,
    ensures
        r == spec_amount_of_sale_tokens(amount, deposit_token, sale_token),
{
    mul_div(amount, sale_token, deposit_token)
}

/// Calculates the deposit (weight) based on the amount of sale tokens and price fraction.
pub fn calculate_weight_from_sale_tokens(amount: u128, deposit_token: u128, sale_token: u128) -> (r:
    Result<u128, &'static str>)
    requires
        sale_token > 0,
    ensures
        r == spec_weight_from_sale_tokens(amount, deposit_token, sale_token),
{
    mul_div(amount, deposit_token, sale_token)
}

/// The part of a fixed-price deposit's `weight` to refund when it buys `exceed` sale tokens
/// more than the `remaining` ones: the weight of the excess, rounded down, and one unit more
/// when the weight that is left would still buy more than remains, so the refund is rounded up
/// just as far as the cap needs.
pub open spec fn spec_capped_refund(
    weight: u128,
    exceed: u128,
    remaining: u128,
    deposit_token: u128,
    sale_token: u128,
) -> Result<u128, &'static str> {
    match spec_weight_from_sale_tokens(exceed, deposit_token, sale_token) {
        Err(e) => Err(e),
        Ok(r0) => if r0 < weight {
            match spec_amount_of_sale_tokens((weight - r0) as u128, deposit_token, sale_token) {
                Err(e) => Err(e),
                Ok(kept) => if kept > remaining {
                    Ok((r0 + 1) as u128)
                } else {
                    Ok(r0)
                },
            }
        } else {
            Ok(r0)
        },
    }
}

/// Returns the part of a fixed-price deposit's `weight` to refund when it buys `exceed` sale
/// tokens more than the `remaining` ones.
fn capped_refund(weight: u128, exceed: u128, remaining: u128, deposit_token: u128, sale_token: u128)
    -> (r: Result<u128, &'static str>)
    requires
        deposit_token > 0,
        sale_token > 0,
    ensures
        r == spec_capped_refund(weight, exceed, remaining, deposit_token, sale_token),
{
    let refund = calculate_weight_from_sale_tokens(exceed, deposit_token, sale_token)?;
    if refund < weight {
        let kept = calculate_amount_of_sale_tokens(weight - refund, deposit_token, sale_token)?;
        if kept > remaining {
            return Ok(refund + 1);
        }
    }
    Ok(refund)
}

/// The weight credited for a deposit and the part of the deposit that is refunded. Without
/// a discount, a fixed-price deposit that buys more than the remaining sale tokens has the
/// excess refunded.
pub open spec fn deposit_weight_and_refund(
    total_sold_tokens: u128,
    config: LaunchpadConfig,
    distribution: DistributionView,
) -> Result<(u128, u128), &'static str> {
    match distribution {
        DistributionView::WithDiscount { phase_weights, public_sale_weight, refund } => Ok(
            (saturate(weights_total(phase_weights) + public_sale_weight), refund),
        ),
        DistributionView::WithoutDiscount(weight) => match config.mechanics {
            Mechanics::FixedPrice { deposit_token, sale_token } => match spec_amount_of_sale_tokens(
                weight,
                deposit_token,
                sale_token,
            ) {
                Ok(assets) => {
                    let remaining = config.sale_amount.saturating_sub(total_sold_tokens);
                    if assets > remaining {
                        match spec_capped_refund(
                            weight,
                            (assets - remaining) as u128,
                            remaining,
                            deposit_token,
                            sale_token,
                        ) {
                            Ok(refund) => Ok((weight.saturating_sub(refund), refund)),
                            Err(e) => Err(e),
                        }
                    } else {
                        Ok((weight, 0))
                    }
                },
                Err(e) => Err(e),
            },
            Mechanics::PriceDiscovery => Ok((weight, 0)),
        },
        DistributionView::Refund(refund) => Ok((0, refund)),
    }
}

/// The sale tokens (fixed price) or the weight (price discovery) that a deposit credits.
pub open spec fn credited_weight(weight: u128, config: LaunchpadConfig) -> Result<u128, &'static str> {
    match config.mechanics {
        Mechanics::FixedPrice { deposit_token, sale_token } => spec_amount_of_sale_tokens(
            weight,
            deposit_token,
            sale_token,
        ),
        Mechanics::PriceDiscovery => Ok(weight),
    }
}

/// The outcome of a deposit: the new investment, total deposited and total sold tokens, and
/// the refund; or the error that leaves everything unchanged.
pub open spec fn deposit_outcome(
    investment: InvestmentAmount,
    amount: u128,
    total_deposited: u128,
    total_sold_tokens: u128,
    config: LaunchpadConfig,
    distribution: DistributionView,
) -> Result<(InvestmentAmount, u128, u128, u128), &'static str> {
    if distribution is Refund {
        Ok((investment, total_deposited, total_sold_tokens, distribution->Refund_0))
    } else {
        match deposit_weight_and_refund(total_sold_tokens, config, distribution) {
            Err(e) => Err(e),
            Ok((weight, refund)) => {
                let deposit = amount.saturating_sub(refund);
                match credited_weight(weight, config) {
                    Err(e) => Err(e),
                    Ok(w) => Ok(
                        (
                            InvestmentAmount {
                                amount: investment.amount.saturating_add(deposit),
                                weight: investment.weight.saturating_add(w),
                                claimed: investment.claimed,
                            },
                            total_deposited.saturating_add(deposit),
                            total_sold_tokens.saturating_add(w),
                            refund,
                        ),
                    ),
                }
            },
        }
    }
}

/// A distribution stays within the sale: the weights of a discounted fixed-price distribution,
/// added up, buy at most the sale tokens that remain. Other distributions are capped by the
/// deposit itself.
pub open spec fn within_sale(
    distribution: DistributionView,
    total_sold_tokens: u128,
    config: LaunchpadConfig,
) -> bool {
    match (config.mechanics, distribution) {
        (
            Mechanics::FixedPrice { deposit_token, sale_token },
            DistributionView::WithDiscount { phase_weights, public_sale_weight, .. },
        ) => (weights_total(phase_weights) + public_sale_weight) * sale_token / (deposit_token as int)
            <= config.sale_amount - total_sold_tokens,
        _ => true,
    }
}

/// Deposits an amount into the investment, applying the deposit distribution computed for the
/// current discount phases.
/// 1. For `FixedPrice`, the weight is the number of sale tokens bought. Without a discount,
///    when the total sold tokens would exceed the sale amount, the excess is refunded; with a
///    discount, the weights added up buy the sale tokens.
/// 2. For `PriceDiscovery`, the weight is the (discounted) deposit.
/// A fixed-price deposit never sells more than the sale amount.
/// Returns the refunded part of the deposit.
pub fn deposit(
    investment: &mut InvestmentAmount,
    amount: u128,
    total_deposited: &mut u128,
    total_sold_tokens: &mut u128,
    config: &LaunchpadConfig,
    deposit_distribution: &DepositDistribution,
) -> (r: Result<u128, &'static str>)
    requires
        config.mechanics.valid(),
    ensures
        match deposit_outcome(
            *old(investment),
            amount,
            *old(total_deposited),
            *old(total_sold_tokens),
            *config,
            deposit_distribution@,
        ) {
            Ok((inv, td, ts, refund)) => r == Ok::<u128, &'static str>(refund)
                && *final(investment) == inv && *final(total_deposited) == td
                && *final(total_sold_tokens) == ts,
            Err(e) => r == Err::<u128, &'static str>(e) && *final(investment) == *old(investment)
                && *final(total_deposited) == *old(total_deposited) && *final(total_sold_tokens)
                == *old(total_sold_tokens),
        },
        config.mechanics is FixedPrice && *old(total_sold_tokens) <= config.sale_amount
            && within_sale(deposit_distribution@, *old(total_sold_tokens), *config)
            ==> *final(total_sold_tokens) <= config.sale_amount,
{
    proof {
        lemma_deposit_within_sale_amount(
            *old(investment),
            amount,
            *old(total_deposited),
            *old(total_sold_tokens),
            *config,
            deposit_distribution@,
        );
    }
    let (weight, refund) = match deposit_distribution {
        DepositDistribution::WithDiscount { phase_weights, public_sale_weight, refund } => (
            DepositDistribution::discount_weight_sum(phase_weights, *public_sale_weight),
            *refund,
        ),
        DepositDistribution::WithoutDiscount(weight) => {
            if let Mechanics::FixedPrice { deposit_token, sale_token } = config.mechanics {
                let assets = calculate_amount_of_sale_tokens(*weight, deposit_token, sale_token)?;
                let remaining = config.sale_amount.saturating_sub(*total_sold_tokens);
                if assets > remaining {
                    let refund = capped_refund(
                        *weight,
                        assets - remaining,
                        remaining,
                        deposit_token,
                        sale_token,
                    )?;
                    (weight.saturating_sub(refund), refund)
                } else {
                    (*weight, 0)
                }
            } else {
                (*weight, 0)
            }
        },
        DepositDistribution::Refund(refund) => return Ok(*refund),
    };

    let deposit = amount.saturating_sub(refund);
    // For a fixed price the weight is the number of sale tokens purchased for the deposit,
    // plus any discount. For price discovery the weight is the deposit, plus any discount,
    // since the exact number of sale tokens is known only once the sale finishes.
    let weight = if let Mechanics::FixedPrice { deposit_token, sale_token } = config.mechanics {
        calculate_amount_of_sale_tokens(weight, deposit_token, sale_token)?
    } else {
        weight
    };

    investment.amount = investment.amount.saturating_add(deposit);
    investment.weight = investment.weight.saturating_add(weight);

    *total_deposited = total_deposited.saturating_add(deposit);
    *total_sold_tokens = total_sold_tokens.saturating_add(weight);

    Ok(refund)
}

/// Refunding the capped refund leaves a weight that buys at most the remaining sale tokens.
proof fn lemma_capped_refund_within(weight: u128, remaining: u128, deposit_token: u128, sale_token: u128)
    requires
        deposit_token > 0,
        sale_token > 0,
        spec_amount_of_sale_tokens(weight, deposit_token, sale_token) matches Ok(assets) && assets
            > remaining,
    ensures
        spec_capped_refund(
            weight,
            (spec_amount_of_sale_tokens(weight, deposit_token, sale_token)->Ok_0 - remaining) as u128,
            remaining,
            deposit_token,
            sale_token,
        ) matches Ok(refund) ==> spec_amount_of_sale_tokens(
            weight.saturating_sub(refund),
            deposit_token,
            sale_token,
        ) matches Ok(kept) && kept <= remaining,
{
    let assets = spec_amount_of_sale_tokens(weight, deposit_token, sale_token)->Ok_0;
    let exceed = (assets - remaining) as u128;
    lemma_sale_tokens_monotone(0, weight, deposit_token, sale_token);
    if let Ok(r0) = spec_weight_from_sale_tokens(exceed, deposit_token, sale_token) {
        if r0 < weight {
            lemma_sale_tokens_monotone((weight - r0) as u128, weight, deposit_token, sale_token);
            if let Ok(kept) = spec_amount_of_sale_tokens((weight - r0) as u128, deposit_token, sale_token) {
                if kept > remaining {
                    let d = deposit_token as int;
                    let s = sale_token as int;
                    let w = weight as int;
                    let e = exceed as int;
                    let q = r0 as int;
                    assert(q == (e * d) / s);
                    lemma_fundamental_div_mod(e * d, s);
                    assert((q + 1) * s > e * d) by (nonlinear_arith)
                        requires
                            q == (e * d) / s,
                            e * d == s * ((e * d) / s) + (e * d) % s,
                            (e * d) % s < s,
                    ;
                    assert((w - q - 1) * s <= w * s - e * d) by (nonlinear_arith)
                        requires
                            (q + 1) * s > e * d,
                    ;
                    assert(w * s + (-e) * d == w * s - e * d) by (nonlinear_arith);
                    lemma_div_is_ordered((w - q - 1) * s, w * s + (-e) * d, d);
                    lemma_hoist_over_denominator(w * s, -e, d as nat);
                    assert(assets as int == (w * s) / d);
                    lemma_sale_tokens_monotone((weight - r0 - 1) as u128, weight, deposit_token, sale_token);
                    assert((weight - r0 - 1) as u128 as nat * sale_token as nat == (w - q - 1) * s);
                }
            }
        }
    }
}

/// A fixed-price deposit whose distribution stays within the sale never sells more than the
/// sale amount: the total sold tokens stay within it.
pub proof fn lemma_deposit_within_sale_amount(
    investment: InvestmentAmount,
    amount: u128,
    total_deposited: u128,
    total_sold_tokens: u128,
    config: LaunchpadConfig,
    distribution: DistributionView,
)
    requires
        config.mechanics.valid(),
    ensures
        config.mechanics is FixedPrice && total_sold_tokens <= config.sale_amount && within_sale(
            distribution,
            total_sold_tokens,
            config,
        ) ==> match deposit_outcome(
            investment,
            amount,
            total_deposited,
            total_sold_tokens,
            config,
            distribution,
        ) {
            Ok((_, _, sold, _)) => sold <= config.sale_amount,
            Err(_) => true,
        },
{
    if let Mechanics::FixedPrice { deposit_token, sale_token } = config.mechanics {
        if total_sold_tokens <= config.sale_amount {
            match distribution {
                DistributionView::WithDiscount { phase_weights, public_sale_weight, .. } => {
                    let total = weights_total(phase_weights) + public_sale_weight;
                    let weight = saturate(total);
                    lemma_mul_inequality(weight as int, total, sale_token as int);
                    lemma_div_is_ordered(
                        weight as int * sale_token as int,
                        total * sale_token as int,
                        deposit_token as int,
                    );
                },
                DistributionView::WithoutDiscount(weight) => {
                    if let Ok(assets) = spec_amount_of_sale_tokens(weight, deposit_token, sale_token) {
                        let remaining = config.sale_amount.saturating_sub(total_sold_tokens);
                        if assets > remaining {
                            lemma_capped_refund_within(weight, remaining, deposit_token, sale_token);
                        }
                    }
                },
                DistributionView::Refund(_) => {},
            }
        }
    }
}

/// Converting `x` sale tokens to the deposit that buys them and back never gives more than
/// `x`: rounding down in both directions cannot oversell.
pub proof fn lemma_sale_round_trip(x: u128, deposit_token: u128, sale_token: u128)
    requires
        deposit_token > 0,
        sale_token > 0,
    ensures
        spec_weight_from_sale_tokens(x, deposit_token, sale_token) matches Ok(w)
            ==> spec_amount_of_sale_tokens(w, deposit_token, sale_token) matches Ok(a) && a <= x,
{
    if let Ok(w) = spec_weight_from_sale_tokens(x, deposit_token, sale_token) {
        let d = deposit_token as int;
        let s = sale_token as int;
        let xi = x as int;
        let wi = w as int;
        assert(wi == (xi * d) / s);
        lemma_fundamental_div_mod(xi * d, s);
        assert(wi * s <= xi * d) by (nonlinear_arith)
            requires
                wi == (xi * d) / s,
                xi * d == s * ((xi * d) / s) + (xi * d) % s,
                (xi * d) % s >= 0,
        ;
        lemma_div_is_ordered(wi * s, xi * d, d);
        assert((xi * d) / d == xi) by (nonlinear_arith)
            requires
                d > 0,
        ;
        assert((wi * s) / d <= xi);
        assert(w as nat * sale_token as nat == wi * s);
    }
}

/// The sale tokens bought by a deposit grow with the deposit.
pub proof fn lemma_sale_tokens_monotone(w1: u128, w2: u128, deposit_token: u128, sale_token: u128)
    requires
        deposit_token > 0,
        w1 <= w2,
        spec_amount_of_sale_tokens(w2, deposit_token, sale_token) is Ok,
    ensures
        spec_amount_of_sale_tokens(w1, deposit_token, sale_token) matches Ok(a1)
            && spec_amount_of_sale_tokens(w2, deposit_token, sale_token) matches Ok(a2) && a1 <= a2,
{
    lemma_mul_inequality(w1 as int, w2 as int, sale_token as int);
    lemma_div_is_ordered(
        (w1 as int) * (sale_token as int),
        (w2 as int) * (sale_token as int),
        deposit_token as int,
    );
}

} // verus!
