//! Taking a withdrawal out of an investment and out of the sale totals.
use crate::types::{
    saturate, weights_total, DepositDistribution, DistributionView, InvestmentAmount,
    LaunchpadConfig, Mechanics,
};
use vstd::prelude::*;

verus! {

/// A distribution can be used to recompute the weight left after a withdrawal: it is not a
/// refund, carries no refund, and its weights add up within `u128`.
pub open spec fn recalculable(distribution: DistributionView) -> bool {
    match distribution {
        DistributionView::WithDiscount { phase_weights, public_sale_weight, refund } => refund
            == 0 && weights_total(phase_weights) + public_sale_weight <= u128::MAX,
        DistributionView::WithoutDiscount(_) => true,
        DistributionView::Refund(_) => false,
    }
}

/// The weight that a distribution grants.
pub open spec fn distribution_weight(distribution: DistributionView) -> u128 {
    match distribution {
        DistributionView::WithDiscount { phase_weights, public_sale_weight, .. } => saturate(
            weights_total(phase_weights) + public_sale_weight,
        ),
        DistributionView::WithoutDiscount(w) => w,
        DistributionView::Refund(_) => 0,
    }
}

/// The outcome of a withdrawal: the new investment, total deposited and total sold tokens; or
/// the error that leaves everything unchanged.
pub open spec fn withdraw_outcome(
    investment: InvestmentAmount,
    amount: u128,
    total_deposited: u128,
    total_sold_tokens: u128,
    config: LaunchpadConfig,
    distribution: DistributionView,
) -> Result<(InvestmentAmount, u128, u128), &'static str> {
    match config.mechanics {
        Mechanics::FixedPrice { .. } => if amount != investment.amount {
            Err("Wrong FixedPrice amount to withdraw")
        } else {
            Ok(
                (
                    InvestmentAmount { amount: 0, weight: 0, claimed: investment.claimed },
                    total_deposited.saturating_sub(amount),
                    total_sold_tokens.saturating_sub(investment.weight),
                ),
            )
        },
        Mechanics::PriceDiscovery => if amount > investment.amount {
            Err("Not enough funds to withdraw")
        } else {
            let recalculated = distribution_weight(distribution);
            let weight = if investment.weight > recalculated {
                recalculated
            } else {
                investment.weight
            };
            Ok(
                (
                    InvestmentAmount {
                        amount: (investment.amount - amount) as u128,
                        weight,
                        claimed: investment.claimed,
                    },
                    total_deposited.saturating_sub(amount),
                    total_sold_tokens.saturating_sub((investment.weight - weight) as u128),
                ),
            )
        },
    }
}

/// Withdraw state modification, adjusting the weight to the discount of what remains: the
/// weight can only decrease, and the total sold tokens decrease by the same amount.
pub fn withdraw(
    investment: &mut InvestmentAmount,
    amount: u128,
    total_deposited: &mut u128,
    total_sold_tokens: &mut u128,
    config: &LaunchpadConfig,
    deposit_distribution: &DepositDistribution,
) -> (r: Result<(), &'static str>)
    requires
        config.mechanics is PriceDiscovery && amount <= old(investment).amount ==> recalculable(
            deposit_distribution@,
        ),
    ensures
        match withdraw_outcome(
            *old(investment),
            amount,
            *old(total_deposited),
            *old(total_sold_tokens),
            *config,
            deposit_distribution@,
        ) {
            Ok((inv, td, ts)) => r is Ok && *final(investment) == inv && *final(total_deposited)
                == td && *final(total_sold_tokens) == ts,
            Err(e) => r == Err::<(), &'static str>(e) && *final(investment) == *old(investment)
                && *final(total_deposited) == *old(total_deposited) && *final(total_sold_tokens)
                == *old(total_sold_tokens),
        },
{
    match config.mechanics {
        Mechanics::FixedPrice { .. } => {
            if amount != investment.amount {
                return Err("Wrong FixedPrice amount to withdraw");
            }
            investment.amount = 0;
            *total_sold_tokens = total_sold_tokens.saturating_sub(investment.weight);
            // Reset weight to zero, as we are withdrawing all funds
            investment.weight = 0;
        },
        Mechanics::PriceDiscovery => {
            if amount > investment.amount {
                return Err("Not enough funds to withdraw");
            }
            // Decrease user investment amount
            investment.amount = investment.amount - amount;

            let weight = investment.weight;
            // Recalculate the weight according to the current discount distribution
            investment.weight = recalculate_weight(deposit_distribution);
            // Recalculate the total sold tokens
            if weight > investment.weight {
                // If the discount decreased
                *total_sold_tokens = total_sold_tokens.saturating_sub(weight - investment.weight);
            } else {
                // If the discount was increased - we don't change the user weight and
                // `total_sold_tokens`
                investment.weight = weight;
            }
        },
    }

    // Decrease the total investment amount
    *total_deposited = total_deposited.saturating_sub(amount);

    Ok(())
}

/// The weight of the remaining deposit according to its distribution.
fn recalculate_weight(deposit_distribution: &DepositDistribution) -> (r: u128)
    requires
        recalculable(deposit_distribution@),
    ensures
        r == distribution_weight(deposit_distribution@),
{
    match deposit_distribution {
        DepositDistribution::WithDiscount { phase_weights, public_sale_weight, .. } => {
            DepositDistribution::discount_weight_sum(phase_weights, *public_sale_weight)
        },
        DepositDistribution::WithoutDiscount(weight) => *weight,
        DepositDistribution::Refund(_) => 0,
    }
}

} // verus!

verus! {

/// A withdrawal never increases the investment, its weight or the totals, and leaves the
/// claimed amount as it was.
pub proof fn lemma_withdraw_never_increases(
    investment: InvestmentAmount,
    amount: u128,
    total_deposited: u128,
    total_sold_tokens: u128,
    config: LaunchpadConfig,
    distribution: DistributionView,
)
    ensures
        withdraw_outcome(
            investment,
            amount,
            total_deposited,
            total_sold_tokens,
            config,
            distribution,
        ) matches Ok((after, deposited, sold)) ==> after.amount <= investment.amount
            && after.weight <= investment.weight && after.claimed == investment.claimed
            && deposited <= total_deposited && sold <= total_sold_tokens,
{
}

/// With a fixed price, withdrawing the whole deposit of a fresh investment undoes the
/// deposit: the investment is empty again and the totals are back to what they were, as long
/// as no total was capped at `u128::MAX`.
pub proof fn lemma_fixed_price_withdraw_undoes_deposit(
    amount: u128,
    total_deposited: u128,
    total_sold_tokens: u128,
    config: LaunchpadConfig,
    deposit_distribution: DistributionView,
    withdraw_distribution: DistributionView,
)
    requires
        config.mechanics is FixedPrice,
    ensures
        crate::mechanics::deposit::deposit_outcome(
            InvestmentAmount { amount: 0, weight: 0, claimed: 0 },
            amount,
            total_deposited,
            total_sold_tokens,
            config,
            deposit_distribution,
        ) matches Ok((investment, deposited, sold, _))
            ==> (deposited == total_deposited + investment.amount && sold == total_sold_tokens
            + investment.weight ==> withdraw_outcome(
            investment,
            investment.amount,
            deposited,
            sold,
            config,
            withdraw_distribution,
        ) == Ok::<(InvestmentAmount, u128, u128), &'static str>(
            (InvestmentAmount { amount: 0, weight: 0, claimed: 0 }, total_deposited, total_sold_tokens),
        )),
{
}

} // verus!
