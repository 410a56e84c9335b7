//! Deposits into an investment and the price conversions.
use alloy_primitives::ruint::aliases::U256;
use aurora_launchpad_contract::mechanics::claim::available_for_claim;
use aurora_launchpad_contract::mechanics::deposit::{
    calculate_amount_of_sale_tokens, calculate_weight_from_sale_tokens, deposit,
};
use aurora_launchpad_contract::types::{
    DepositDistribution, DepositToken, DistributionAccount, DistributionProportions,
    InvestmentAmount, LaunchpadConfig, Mechanics, StakeholderProportion, VestingSchedule,
    VestingScheme,
};
use aurora_launchpad_contract::wide::to_u128;

const DECIMALS: u32 = 24;
const TOKEN_SCALE: u128 = 10u128.pow(DECIMALS);

const DEPOSIT_TOKEN_ID: &str = "wrap.near";
const SALE_TOKEN_ID: &str = "sale.token.near";
const INTENTS_ACCOUNT_ID: &str = "intents.near";
const SOLVER_ACCOUNT_ID: &str = "solver.near";
const NOW: u64 = 1_000_000_000;
#[allow(dead_code)]
const TEN_DAYS: u64 = 10 * 24 * 60 * 60;

const MULTIPLIER_18: u128 = 10u128.pow(18);
const MULTIPLIER_24: u128 = 10u128.pow(24);

fn base_config(mechanics: Mechanics) -> LaunchpadConfig {
    LaunchpadConfig {
        deposit_token: DepositToken::Nep141(DEPOSIT_TOKEN_ID.to_string()),
        min_deposit: 100_000,
        sale_token_account_id: SALE_TOKEN_ID.to_string(),
        intents_account_id: INTENTS_ACCOUNT_ID.to_string(),
        start_date: NOW,
        end_date: NOW + TEN_DAYS,
        // 24 decimals - for deposited tokens
        soft_cap: 1_000_000 * MULTIPLIER_24, // 1 Million tokens
        mechanics,
        sale_amount: 3_000_000 * MULTIPLIER_18,
        total_sale_amount: 10_000_000 * MULTIPLIER_18,
        vesting_schedule: None,
        distribution_proportions: DistributionProportions {
            solver_account_id: DistributionAccount::Near(SOLVER_ACCOUNT_ID.to_string()),
            solver_allocation: 5_000_000 * MULTIPLIER_18,
            stakeholder_proportions: vec![StakeholderProportion {
                allocation: 2_000_000 * MULTIPLIER_18,
                account: DistributionAccount::Near("team.near".to_string()),
                vesting: None,
            }],
            deposits: None,
        },
        discounts: None,
        tge: None,
    }
}

#[allow(dead_code)]
fn price_discovery_config() -> LaunchpadConfig {
    base_config(Mechanics::PriceDiscovery)
}

#[allow(dead_code)]
fn fixed_price_config() -> LaunchpadConfig {
    base_config(Mechanics::FixedPrice {
        // Deposit - 24 decimals
        deposit_token: 50_000,
        // Deposit - 18 decimals
        sale_token: 1,
    })
}

#[test]
fn deposit_test_deposit_price_discovery_no_discount() {
    let config = price_discovery_config();
    let mut investment = InvestmentAmount::default();
    let mut total_deposited = 0;
    let mut total_sold_tokens = 0;
    let deposit_amount = 10u128.pow(29); // 100k tokens
    let deposit_distribution = DepositDistribution::WithoutDiscount(deposit_amount);

    let result = deposit(
        &mut investment,
        deposit_amount,
        &mut total_deposited,
        &mut total_sold_tokens,
        &config,
        &deposit_distribution,
    );

    let expected_weight = deposit_amount;
    assert_eq!(result, Ok(0));
    assert_eq!(investment.amount, deposit_amount);
    assert_eq!(investment.weight, expected_weight);
    assert_eq!(total_deposited, deposit_amount);
    assert_eq!(total_sold_tokens, expected_weight);

    // Check claim with fake `total_tokens_sold`
    total_sold_tokens *= 3;
    let for_claim = available_for_claim(&investment, total_sold_tokens, &config, NOW).unwrap();
    assert_eq!(for_claim, config.sale_amount / 3);
}

#[test]
fn deposit_test_deposit_price_discovery_with_discount() {
    let config = price_discovery_config();
    let deposit_amount = 10u128.pow(29); // 100k tokens
    let expected_weight = deposit_amount * 120 / 100; // 120k tokens
    let deposit_distribution = DepositDistribution::WithDiscount {
        phase_weights: vec![(1, expected_weight)],
        public_sale_weight: 0,
        refund: 0,
    };
    let mut investment = InvestmentAmount::default();
    let mut total_deposited = 0;
    let mut total_sold_tokens = 0;

    let result = deposit(
        &mut investment,
        deposit_amount,
        &mut total_deposited,
        &mut total_sold_tokens,
        &config,
        &deposit_distribution,
    );

    assert_eq!(result, Ok(0));
    assert_eq!(investment.amount, deposit_amount);
    assert_eq!(investment.weight, expected_weight);
    assert_eq!(total_deposited, deposit_amount);
    assert_eq!(total_sold_tokens, expected_weight);

    // Check claim with fake `total_tokens_sold`
    total_sold_tokens += 2 * deposit_amount;
    let for_claim = available_for_claim(&investment, total_sold_tokens, &config, NOW).unwrap();
    assert_eq!(for_claim, 1125 * deposit_amount / 100_000_000);
}

#[test]
fn deposit_test_deposit_fixed_price_no_discount_simple() {
    let config = fixed_price_config();
    let mut investment = InvestmentAmount::default();
    let mut total_deposited = 0;
    let mut total_sold_tokens = 0;
    let deposit_amount = 10u128.pow(29); // 100k tokens
    let deposit_distribution = DepositDistribution::WithoutDiscount(deposit_amount);

    let result = deposit(
        &mut investment,
        deposit_amount,
        &mut total_deposited,
        &mut total_sold_tokens,
        &config,
        &deposit_distribution,
    );

    let expected_weight = 10u128.pow(18) * 20 * 100_000;
    assert_eq!(result, Ok(0));
    assert_eq!(investment.amount, deposit_amount);
    assert_eq!(investment.weight, expected_weight);
    assert_eq!(total_deposited, deposit_amount);
    assert_eq!(total_sold_tokens, expected_weight);

    // Check claim
    let for_claim = available_for_claim(&investment, total_sold_tokens, &config, NOW).unwrap();
    assert_eq!(for_claim, expected_weight);
}

#[test]
fn deposit_test_deposit_fixed_price_with_discount() {
    let config = fixed_price_config();
    let mut investment = InvestmentAmount::default();
    let mut total_deposited = 0;
    let mut total_sold_tokens = 0;
    let deposit_amount = 10u128.pow(29); // 100k tokens
    let expected_weight = deposit_amount * 125 / 100;
    let deposit_distribution = DepositDistribution::WithDiscount {
        phase_weights: vec![(1, expected_weight)],
        public_sale_weight: 0,
        refund: 0,
    };

    let result = deposit(
        &mut investment,
        deposit_amount,
        &mut total_deposited,
        &mut total_sold_tokens,
        &config,
        &deposit_distribution,
    );

    let expected_assets = 10u128.pow(18) * 20 * 100_000 * 125 / 100;
    assert_eq!(result, Ok(0));
    assert_eq!(investment.amount, deposit_amount);
    assert_eq!(investment.weight, expected_assets);
    assert_eq!(total_deposited, deposit_amount);
    assert_eq!(total_sold_tokens, expected_assets);

    // Check claim
    let for_claim = available_for_claim(&investment, total_sold_tokens, &config, NOW).unwrap();
    assert_eq!(for_claim, expected_assets);
}

#[test]
fn fixed_price_reached_sale_amount_no_discount() {
    let config = fixed_price_config();
    let mut investment = InvestmentAmount::default();
    let mut total_deposited = 0;
    let mut total_sold_tokens = 0;
    let deposit_amount = 2 * 10u128.pow(29); // 200k tokens
    let deposit_distribution = DepositDistribution::WithoutDiscount(deposit_amount);

    let result = deposit(
        &mut investment,
        deposit_amount,
        &mut total_deposited,
        &mut total_sold_tokens,
        &config,
        &deposit_distribution,
    )
    .unwrap();

    let expected_assets = config.sale_amount;
    assert_eq!(result, 5 * 10u128.pow(28)); // 50k tokens
    assert_eq!(investment.amount, deposit_amount - result);
    assert_eq!(investment.weight, expected_assets);
    assert_eq!(total_deposited, deposit_amount - result);
    assert_eq!(total_sold_tokens, expected_assets);

    // Check claim
    let for_claim = available_for_claim(&investment, total_sold_tokens, &config, NOW).unwrap();
    assert_eq!(for_claim, expected_assets);
}

#[test]
fn deposit_test_deposit_fixed_price_reached_sale_amount_with_discount() {
    let config = fixed_price_config();
    let mut investment = InvestmentAmount::default();
    let mut total_deposited = 0;
    let mut total_sold_tokens = 0;
    let deposit_amount = 2 * 10u128.pow(29); // 200k tokens
    // 2 Million tokens - with discount 25%: price * deposit * discount - sale_amount
    let assets_exceeded =
        (20 * deposit_amount * 125 / 100) - 10u128.pow(6) * config.sale_amount;
    let expected_weight = config.sale_amount * 50000;
    // Exclude discount from assets excess and dived to token price 20
    let expected_refund = (assets_exceeded * 100 / 125) / 20;
    let deposit_distribution = DepositDistribution::WithDiscount {
        phase_weights: vec![(1, expected_weight)],
        public_sale_weight: 0,
        refund: expected_refund,
    };

    let refund = deposit(
        &mut investment,
        deposit_amount,
        &mut total_deposited,
        &mut total_sold_tokens,
        &config,
        &deposit_distribution,
    )
    .unwrap();

    let expected_assets = config.sale_amount;
    assert_eq!(refund, expected_refund);

    assert_eq!(refund, 8 * 10u128.pow(28)); // 80k tokens
    assert_eq!(investment.amount, deposit_amount - refund);
    assert_eq!(investment.weight, expected_assets);
    assert_eq!(total_deposited, deposit_amount - refund);
    assert_eq!(total_sold_tokens, expected_assets);

    // Check claim
    let for_claim = available_for_claim(&investment, total_sold_tokens, &config, NOW).unwrap();
    assert_eq!(for_claim, expected_assets);
}

#[test]
fn deposit_test_deposit_fixed_price_sale_exactly_at_sale_amount() {
    let config = fixed_price_config();
    let mut investment = InvestmentAmount::default();
    let mut total_deposited = 0;
    let mut total_sold_tokens = 0;
    let deposit_amount = 15 * 10u128.pow(28); // 150k tokens
    let deposit_distribution = DepositDistribution::WithoutDiscount(deposit_amount);

    let result = deposit(
        &mut investment,
        deposit_amount,
        &mut total_deposited,
        &mut total_sold_tokens,
        &config,
        &deposit_distribution,
    );

    let expected_assets = config.sale_amount;
    assert_eq!(result, Ok(0));
    assert_eq!(investment.amount, deposit_amount);
    assert_eq!(investment.weight, expected_assets);
    assert_eq!(total_deposited, deposit_amount);
    assert_eq!(total_sold_tokens, expected_assets);

    // Check claim
    let for_claim = available_for_claim(&investment, total_sold_tokens, &config, NOW).unwrap();
    assert_eq!(for_claim, expected_assets);
}

#[test]
fn deposit_test_normal_case() {
    let amount = 10 * TOKEN_SCALE;
    let deposit_token = 10;
    let sale_token = 5;

    let result = calculate_amount_of_sale_tokens(amount, deposit_token, sale_token).unwrap();
    assert_eq!(result, 5 * TOKEN_SCALE);
}

#[test]
fn deposit_test_small_fraction_result() {
    let amount = 1;
    let deposit_token = 10u128.pow(24);
    let sale_token = 1;

    let result = calculate_amount_of_sale_tokens(amount, deposit_token, sale_token).unwrap();
    assert_eq!(result, 0);
}

#[test]
fn deposit_test_price_is_one_token_scale() {
    let amount = 42;
    let deposit_token = 1;
    let sale_token = 1;

    let result = calculate_amount_of_sale_tokens(amount, deposit_token, sale_token).unwrap();
    assert_eq!(result, 42);
}

#[test]
fn deposit_test_multiplication_overflow() {
    let amount = (u128::MAX / 10u128.pow(24)) + 1;
    let deposit_token = 1;
    let sale_token = 10u128.pow(24);

    let result = calculate_amount_of_sale_tokens(amount, deposit_token, sale_token);
    assert!(result.is_err());
    assert_eq!(result.unwrap_err(), "Value is too large to fit in u128");
}

#[test]
fn deposit_test_when_price_is_less_then_amount() {
    let amount = 10 * 10u128.pow(24);
    let deposit_token = 31;
    let sale_token = 10u128.pow(4);

    let result = calculate_amount_of_sale_tokens(amount, deposit_token, sale_token).unwrap();
    let expected = U256::from(amount) * U256::from(sale_token) / U256::from(deposit_token);
    assert_eq!(result, 3_225_806_451_612_903_225_806_451_612);
    assert_eq!(result, to_u128(expected.into_limbs()).unwrap());
}

#[test]
fn deposit_test_when_decimals_24_18() {
    let amount = 10 * 10u128.pow(24);
    let deposit_token = 3 * 10u128.pow(6);
    let sale_token = 1;

    let result = calculate_amount_of_sale_tokens(amount, deposit_token, sale_token).unwrap();
    let expected = 10u128.pow(19) / 3;
    assert_eq!(result, expected);
}

#[test]
fn deposit_test_when_decimals_24_18_low_amount() {
    let amount = 10 * 10u128.pow(6);
    let deposit_token = 3 * 10u128.pow(6);
    let sale_token = 1;

    let result = calculate_amount_of_sale_tokens(amount, deposit_token, sale_token).unwrap();
    let expected = 10u128.pow(1) / 3;
    assert_eq!(result, expected);
}

#[test]
fn deposit_test_when_decimals_24_18_too_small_amount() {
    let amount = 10 * 10u128.pow(5);
    let deposit_token = 3 * 10u128.pow(6);
    let sale_token = 1;

    let result = calculate_amount_of_sale_tokens(amount, deposit_token, sale_token).unwrap();
    assert_eq!(result, 0);
}

#[test]
fn deposit_test_when_decimals_18_24() {
    let amount = 10 * 10u128.pow(18);
    let deposit_token = 3;
    let sale_token = 10u128.pow(6);

    let result = calculate_amount_of_sale_tokens(amount, deposit_token, sale_token).unwrap();
    let expected = 10u128.pow(25) / 3;
    assert_eq!(result, expected);
}

#[test]
fn deposit_test_when_decimals_18_24_low_amount() {
    let amount = 10;
    let deposit_token = 3;
    let sale_token = 10u128.pow(6);

    let result = calculate_amount_of_sale_tokens(amount, deposit_token, sale_token).unwrap();
    let expected = 10u128.pow(7) / 3;
    assert_eq!(result, expected);
}

#[test]
fn test_normal_case() {
    let amount = 5;
    let deposit_token = 2;
    let sale_token = 1;

    let result = calculate_weight_from_sale_tokens(amount, deposit_token, sale_token).unwrap();
    assert_eq!(result, 10);
}

#[test]
fn deposit_test_price_less_than_token_scale() {
    let amount = 5;
    let deposit_token = 1;
    let sale_token = 2;

    let result = calculate_weight_from_sale_tokens(amount, deposit_token, sale_token).unwrap();
    assert_eq!(result, 2);
}

#[test]
fn deposit_test_zero_amount() {
    let amount = 0;
    let deposit_token = 2;
    let sale_token = 1;

    let result = calculate_weight_from_sale_tokens(amount, deposit_token, sale_token).unwrap();
    assert_eq!(result, 0);
}

#[test]
fn deposit_test_division_truncates_fraction() {
    let amount = 1;
    let deposit_token = 10u128.pow(24) + 10u128.pow(24) / 2;
    let sale_token = 10u128.pow(24);

    let result = calculate_weight_from_sale_tokens(amount, deposit_token, sale_token).unwrap();
    assert_eq!(result, 1); // floor(1.5)
}

#[test]
fn deposit_test_multiplication_overflow_should_fail() {
    let amount = u128::MAX / 2 + 1;
    let deposit_token = 2;
    let sale_token = 1;

    let result = calculate_weight_from_sale_tokens(amount, deposit_token, sale_token);
    assert!(result.is_err());
    assert_eq!(result.unwrap_err(), "Value is too large to fit in u128");
}

#[test]
fn deposit_test_large_valid_multiplication_no_overflow() {
    // Should be OK just under an overflow threshold
    let amount = u128::MAX / 2;
    let deposit_token = 2;
    let sale_token = 1;

    let result = calculate_weight_from_sale_tokens(amount, deposit_token, sale_token);
    assert!(result.is_ok());
}

#[test]
fn test_when_price_is_less_then_amount() {
    let amount = 10u128.pow(25);
    let deposit_token = 31;
    let sale_token = 10u128.pow(6);

    let result = calculate_weight_from_sale_tokens(amount, deposit_token, sale_token).unwrap();
    let expected = amount * 31 / 10u128.pow(6);
    assert_eq!(result, 10 * 31 * 10u128.pow(18));
    assert_eq!(result, expected);
}

#[test]
fn test_when_decimals_24_18() {
    let amount = 10 * 10u128.pow(24);
    let deposit_token = 3;
    let sale_token = 10u128.pow(6);

    let result = calculate_weight_from_sale_tokens(amount, deposit_token, sale_token).unwrap();
    let expected = 3 * 10u128.pow(19);
    assert_eq!(result, expected);
}

#[test]
fn test_when_decimals_18_24() {
    let amount = 10 * 10u128.pow(18);
    let deposit_token = 3 * 10u128.pow(6);
    let sale_token = 1;

    let result = calculate_weight_from_sale_tokens(amount, deposit_token, sale_token).unwrap();
    let expected = 3 * 10u128.pow(25);
    assert_eq!(result, expected);
}

#[test]
fn deposit_test_when_decimals_18_24_revert() {
    let amount = 10u128.pow(19) / 3;
    let deposit_token = 3 * 10u128.pow(6);
    let sale_token = 1;

    let result = calculate_weight_from_sale_tokens(amount, deposit_token, sale_token).unwrap();
    let expected = (10u128.pow(19) - 1) * 10u128.pow(6);
    assert_eq!(result, expected);
}

#[test]
fn deposit_test_when_decimals_18_24_low_amount_revert() {
    let amount = 10u128.pow(1) / 3;
    let deposit_token = 3 * 10u128.pow(6);
    let sale_token = 1;

    let result = calculate_weight_from_sale_tokens(amount, deposit_token, sale_token).unwrap();
    let expected = 9 * 10u128.pow(6);
    assert_eq!(result, expected);
}

#[test]
fn deposit_test_when_decimals_24_18_revert() {
    let amount = 10u128.pow(25) / 3;
    let deposit_token = 3;
    let sale_token = 10u128.pow(6);

    let result = calculate_weight_from_sale_tokens(amount, deposit_token, sale_token).unwrap();
    let expected = 10 * 10u128.pow(18) - 1;
    assert_eq!(result, expected);
}

#[test]
fn deposit_test_when_decimals_24_18_low_amount_revert() {
    let amount = 10u128.pow(7) / 3;
    let deposit_token = 3;
    let sale_token = 10u128.pow(6);

    let result = calculate_weight_from_sale_tokens(amount, deposit_token, sale_token).unwrap();
    let expected = 10 - 1;
    assert_eq!(result, expected);
}
