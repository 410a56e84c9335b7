//! The building blocks of the library: conversions, discount phases, results of other
//! contracts, account maps, storage keys and the factory.
use aurora_launchpad_contract::account_map::AccountMap;
use aurora_launchpad_contract::contract::distribute::owed_transfers;
use aurora_launchpad_contract::contract::results::{
    read_ft_result, read_ft_value, read_mt_result, read_mt_value, PromiseOutcome,
};
use aurora_launchpad_contract::contract::withdraw::{validate_intents_results, WithdrawIntents};
use aurora_launchpad_contract::discount::distribution::{
    calculate_weight_with_discount, calculate_weight_without_discount,
    deposit_distribution_price_discovery, sort_by_percentage,
};
use aurora_launchpad_contract::discount::params::collect_feeders;
use aurora_launchpad_contract::discount::state::{DiscountState, DiscountStatePerPhase};
use aurora_launchpad_contract::factory::AuroraLaunchpadFactory;
use aurora_launchpad_contract::mechanics::deposit::{
    calculate_amount_of_sale_tokens, calculate_weight_from_sale_tokens,
};
use aurora_launchpad_contract::mechanics::claim::user_allocation;
use aurora_launchpad_contract::mechanics::withdraw::withdraw;
use aurora_launchpad_contract::storage_key::{to_vec, StorageKey};
use aurora_launchpad_contract::types::{
    DepositDistribution, DepositToken, DepositsProportions, DiscountParams, DiscountPhase, DistributionAccount,
    DistributionProportions, IntentsAccount, InvestmentAmount, LaunchpadConfig, Mechanics,
};
use aurora_launchpad_contract::wide::mul_div;

fn phase(id: u16, start_time: u64, end_time: u64, percentage: u16) -> DiscountPhase {
    DiscountPhase {
        id,
        start_time,
        end_time,
        percentage,
        ..Default::default()
    }
}

fn config(mechanics: Mechanics) -> LaunchpadConfig {
    LaunchpadConfig {
        deposit_token: DepositToken::Nep141("wrap.near".to_string()),
        min_deposit: 1,
        sale_token_account_id: "sale.near".to_string(),
        intents_account_id: "intents.near".to_string(),
        start_date: 0,
        end_date: 100,
        soft_cap: 1,
        mechanics,
        sale_amount: 10_000,
        total_sale_amount: 10_000,
        vesting_schedule: None,
        distribution_proportions: DistributionProportions {
            solver_account_id: DistributionAccount::Near("solver.near".to_string()),
            solver_allocation: 0,
            stakeholder_proportions: vec![],
            deposits: None,
        },
        discounts: None,
        tge: None,
    }
}

#[test]
fn mul_div_rounds_down_through_a_wide_product() {
    assert_eq!(mul_div(7, 3, 2), Ok(10));
    assert_eq!(mul_div(u128::MAX, u128::MAX, u128::MAX), Ok(u128::MAX));
    assert_eq!(
        mul_div(u128::MAX, 2, 1),
        Err("Value is too large to fit in u128")
    );
}

#[test]
fn sale_token_round_trip_never_gains() {
    // 7 deposit units buy 3 sale tokens.
    let weight = calculate_weight_from_sale_tokens(2000, 7, 3).unwrap();
    assert_eq!(weight, 4666);
    let back = calculate_amount_of_sale_tokens(weight, 7, 3).unwrap();
    assert_eq!(back, 1999);
    assert!(back <= 2000);
}

#[test]
fn discount_round_trip_never_gains() {
    let weight = calculate_weight_with_discount(1000, 1000).unwrap();
    assert_eq!(weight, 1100);
    assert_eq!(calculate_weight_without_discount(weight, 1000), Ok(1000));
    let weight = calculate_weight_with_discount(7, 2500).unwrap();
    assert_eq!(weight, 8);
    assert_eq!(calculate_weight_without_discount(weight, 2500), Ok(6));
}

#[test]
fn percentages_are_sorted_highest_first_and_stable() {
    let sorted = sort_by_percentage(vec![(1, 500), (2, 1500), (3, 500), (4, 2000), (5, 1500)]);
    assert_eq!(sorted, vec![(4, 2000), (2, 1500), (5, 1500), (1, 500), (3, 500)]);
    assert_eq!(sort_by_percentage(vec![]), vec![]);
}

#[test]
fn price_discovery_needs_a_discount() {
    assert_eq!(
        deposit_distribution_price_discovery(&vec![], 10),
        Err("At least one discount must exist")
    );
    assert_eq!(
        deposit_distribution_price_discovery(&vec![(3, 2500), (1, 1000)], 1000),
        Ok(DepositDistribution::WithDiscount {
            phase_weights: vec![(3, 1250)],
            public_sale_weight: 0,
            refund: 0,
        })
    );
}

#[test]
fn phases_are_found_by_time_and_id() {
    let params = DiscountParams {
        phases: vec![phase(1, 0, 10, 100), phase(2, 5, 15, 200), phase(3, 10, 20, 300)],
        public_sale_start_time: None,
    };
    assert_eq!(params.get_phases_by_time(7), vec![0, 1]);
    assert_eq!(params.get_phases_by_time(10), vec![1, 2]);
    assert_eq!(params.get_phases_by_time(20), Vec::<usize>::new());
    assert_eq!(params.get_phase_params_by_id(3).unwrap().percentage, 300);
    assert_eq!(
        params.get_phase_params_by_id(4),
        Err("Discount phase not found")
    );
}

#[test]
fn unsold_limits_flow_to_the_next_or_the_named_phase() {
    let mut first = phase(1, 0, 10, 100);
    first.remaining_go_to_phase_id = Some(3);
    let phases = vec![first, phase(2, 10, 20, 200), phase(3, 20, 30, 300)];
    // Phase 1 feeds phase 3 directly; phase 2 feeds phase 3 as the next phase.
    assert_eq!(collect_feeders(&phases, 3), vec![1, 2]);
    assert_eq!(collect_feeders(&phases, 2), Vec::<u16>::new());
    let state = DiscountState::init(&DiscountParams {
        phases,
        public_sale_start_time: None,
    });
    assert!(state.is_phases_linked(3, 1));
    assert!(state.is_phases_linked(3, 2));
    assert!(!state.is_phases_linked(2, 1));
}

#[test]
fn shared_phase_limits_and_account_limits() {
    let mut first = phase(1, 0, 10, 1000);
    first.phase_sale_limit = Some(1000);
    first.max_limit_per_account = Some(300);
    let mut second = phase(2, 10, 20, 500);
    second.phase_sale_limit = Some(500);
    let params = DiscountParams {
        phases: vec![first.clone(), second],
        public_sale_start_time: None,
    };
    let mut state = DiscountState::init(&params);
    let alice = IntentsAccount("alice.near".to_string());
    let distribution = DepositDistribution::WithDiscount {
        phase_weights: vec![(1, 150)],
        public_sale_weight: 0,
        refund: 0,
    };
    state.update(&alice, &distribution, 1, 2);
    assert_eq!(state.get_account_sale_tokens_for_phase(&alice, 1), 300);
    assert_eq!(state.get_total_sale_tokens_for_phases_with_limits(2), 300);
    // Phase 2 shares the limits of both phases: 1500.
    assert_eq!(state.check_sale_phases_limit_exceeded(1600, 2), 100);
    assert_eq!(state.check_sale_phases_limit_exceeded(1600, 1), 600);
    // Alice reached the maximum of phase 1, so its discount is no longer open to her.
    assert!(state.phases[0].is_exceeded_account_limit(&alice, &first));
    assert_eq!(
        state.get_discount_percentage_per_phase(&alice, 5, &params),
        Vec::<(u16, u16)>::new()
    );
    let bob = IntentsAccount("bob.near".to_string());
    assert_eq!(
        state.get_discount_percentage_per_phase(&bob, 5, &params),
        vec![(1, 1000)]
    );
}

#[test]
fn phase_whitelists() {
    let mut listed = phase(1, 0, 10, 100);
    let alice = IntentsAccount("alice.near".to_string());
    listed.whitelist = Some(vec![alice.clone()]);
    let mut state = DiscountStatePerPhase::new(&listed);
    assert!(state.is_account_allowed(&alice));
    let bob = IntentsAccount("bob.near".to_string());
    assert!(!state.is_account_allowed(&bob));
    state.extend_whitelist(vec![bob.clone()]);
    assert!(state.is_account_allowed(&bob));
    assert_eq!(state.remove_from_whitelist(vec![alice.clone()]), Some(()));
    assert!(!state.is_account_allowed(&alice));
    assert_eq!(state.get_whitelist(), Some(vec![bob]));
    let open = DiscountStatePerPhase::new(&phase(2, 0, 10, 100));
    assert!(open.is_account_allowed(&alice));
}

#[test]
fn price_discovery_withdrawal_keeps_the_lower_weight() {
    let config = config(Mechanics::PriceDiscovery);
    let mut investment = InvestmentAmount {
        amount: 1000,
        weight: 1200,
        claimed: 7,
    };
    let mut total_deposited = 1000;
    let mut total_sold_tokens = 1200;
    assert_eq!(
        withdraw(
            &mut investment,
            2000,
            &mut total_deposited,
            &mut total_sold_tokens,
            &config,
            &DepositDistribution::WithoutDiscount(0),
        ),
        Err("Not enough funds to withdraw")
    );
    withdraw(
        &mut investment,
        400,
        &mut total_deposited,
        &mut total_sold_tokens,
        &config,
        &DepositDistribution::WithoutDiscount(600),
    )
    .unwrap();
    assert_eq!(
        investment,
        InvestmentAmount {
            amount: 600,
            weight: 600,
            claimed: 7
        }
    );
    assert_eq!(total_deposited, 600);
    assert_eq!(total_sold_tokens, 600);
}

#[test]
fn fixed_price_withdrawal_undoes_the_deposit() {
    let config = config(Mechanics::FixedPrice {
        deposit_token: 1,
        sale_token: 3,
    });
    let mut investment = InvestmentAmount::default();
    let mut total_deposited = 50;
    let mut total_sold_tokens = 150;
    let refund = aurora_launchpad_contract::mechanics::deposit::deposit(
        &mut investment,
        100,
        &mut total_deposited,
        &mut total_sold_tokens,
        &config,
        &DepositDistribution::WithoutDiscount(100),
    )
    .unwrap();
    assert_eq!(refund, 0);
    assert_eq!(total_sold_tokens, 450);
    assert_eq!(
        withdraw(
            &mut investment,
            99,
            &mut total_deposited,
            &mut total_sold_tokens,
            &config,
            &DepositDistribution::WithoutDiscount(1),
        ),
        Err("Wrong FixedPrice amount to withdraw")
    );
    withdraw(
        &mut investment,
        100,
        &mut total_deposited,
        &mut total_sold_tokens,
        &config,
        &DepositDistribution::WithoutDiscount(0),
    )
    .unwrap();
    assert_eq!(investment, InvestmentAmount::default());
    assert_eq!(total_deposited, 50);
    assert_eq!(total_sold_tokens, 150);
}

#[test]
fn transfer_results_are_read_from_json() {
    let ok = |s: &str| PromiseOutcome::Successful(s.as_bytes().to_vec());
    assert_eq!(read_ft_result(&ok("\"30\""), 100), 30);
    assert_eq!(read_ft_result(&ok("30"), 100), 100);
    assert_eq!(read_ft_result(&PromiseOutcome::Failed, 100), 0);
    assert_eq!(read_mt_result(&ok("[\"6\"]"), 7), 6);
    assert_eq!(read_mt_result(&ok("[]"), 7), 7);
    assert_eq!(read_mt_result(&PromiseOutcome::Failed, 7), 0);
    assert_eq!(read_ft_value(&ok("\"12\"")), 12);
    assert_eq!(read_ft_value(&ok("oops")), 0);
    assert_eq!(read_mt_value(&ok("[\"5\", \"9\"]")), 5);
    assert_eq!(read_mt_value(&PromiseOutcome::Failed), 0);
}

#[test]
fn intents_are_valid_only_when_every_check_passed() {
    let ok = |s: &str| PromiseOutcome::Successful(s.as_bytes().to_vec());
    assert_eq!(
        validate_intents_results(2, &vec![ok("true"), ok("true")]),
        Ok(WithdrawIntents::Present { valid: true })
    );
    assert_eq!(
        validate_intents_results(2, &vec![ok("true"), PromiseOutcome::Failed]),
        Ok(WithdrawIntents::Present { valid: false })
    );
    assert_eq!(
        validate_intents_results(1, &vec![ok("maybe")]),
        Ok(WithdrawIntents::Present { valid: false })
    );
    assert_eq!(
        validate_intents_results(3, &vec![ok("true")]),
        Err("Wrong number of promise results")
    );
}

#[test]
fn phase_whitelists_hold_each_account_once() {
    let alice = IntentsAccount("alice.near".to_string());
    let bob = IntentsAccount("bob.near".to_string());
    let mut listed = phase(1, 0, 10, 100);
    listed.whitelist = Some(vec![alice.clone(), bob.clone(), alice.clone()]);
    let mut state = DiscountStatePerPhase::new(&listed);
    assert_eq!(state.get_whitelist(), Some(vec![alice.clone(), bob.clone()]));
    state.extend_whitelist(vec![bob.clone(), bob.clone()]);
    assert_eq!(state.get_whitelist(), Some(vec![alice, bob]));
}

#[test]
fn account_maps_keep_one_value_per_account() {
    let mut map: AccountMap<IntentsAccount, u128> = AccountMap::new();
    let alice = IntentsAccount("alice.near".to_string());
    let bob = IntentsAccount("bob.near".to_string());
    map.insert(alice.clone(), 1);
    map.insert(bob.clone(), 2);
    map.insert(alice.clone(), 3);
    assert_eq!(map.get(&alice), Some(3));
    assert_eq!(map.get(&bob), Some(2));
    let copy = map.duplicate();
    map.remove(&alice);
    assert!(!map.contains_key(&alice));
    assert_eq!(copy.get(&alice), Some(3));
    assert_eq!(copy.to_vec(), vec![(alice.clone(), 3), (bob.clone(), 2)]);
    assert_eq!(map.to_vec(), vec![(bob.clone(), 2)]);
    let mut kinds: AccountMap<DistributionAccount, u128> = AccountMap::new();
    kinds.insert(DistributionAccount::Near("x.near".to_string()), 1);
    kinds.insert(
        DistributionAccount::Intents(IntentsAccount("x.near".to_string())),
        2,
    );
    assert_eq!(
        kinds.get(&DistributionAccount::Near("x.near".to_string())),
        Some(1)
    );
}

#[test]
fn storage_keys_are_prefixes_and_ids() {
    assert_eq!(StorageKey::Investments.into_storage_key(), b"investments".to_vec());
    assert_eq!(
        StorageKey::IndividualVestingClaimed.into_storage_key(),
        b"individual_vesting_claimed".to_vec()
    );
    assert_eq!(
        StorageKey::DiscountWhitelist { id: 258 }.into_storage_key(),
        b"whitelist\x02\x01".to_vec()
    );
    assert_eq!(
        StorageKey::SaleTokensPerUser { id: 1 }.into_storage_key(),
        b"tokens_per_user\x01\x00".to_vec()
    );
    assert_eq!(to_vec("p", 0xabcd), vec![b'p', 0xcd, 0xab]);
}

#[test]
fn the_factory_numbers_its_launchpads() {
    let mut factory = AuroraLaunchpadFactory::new();
    assert_eq!(AuroraLaunchpadFactory::get_version(), "0.1.0");
    assert_eq!(
        factory.launchpad_account_id("factory.near"),
        Ok("lp-1.factory.near".to_string())
    );
    factory.launchpad_count = 41;
    assert_eq!(
        factory.launchpad_account_id("factory.near"),
        Ok("lp-42.factory.near".to_string())
    );
    assert_eq!(
        factory.launchpad_account_id("Factory.near"),
        Err("Failed to parse launchpad account ID")
    );
    assert_eq!(factory.launchpad_count, 42);
}

#[test]
fn deposits_split_into_fee_and_solver_shares_without_loss() {
    let proportions = DepositsProportions {
        fee_account: IntentsAccount("fee.near".to_string()),
        fee_percentage: 333,
    };
    // 3.33% of 1001 is 33.3, rounded down; the solver gets the rest.
    assert_eq!(proportions.calculate_proportions(1001), Ok((968, 33)));
    assert_eq!(proportions.calculate_proportions(0), Ok((0, 0)));
    assert_eq!(
        proportions.calculate_proportions(u128::MAX),
        Ok((
            328_950_964_102_471_212_630_044_233_004_290_330_014,
            11_331_402_818_467_250_833_330_374_427_477_881_441
        ))
    );
}

#[test]
fn the_factory_asks_for_the_minimum_deposit() {
    let mut factory = AuroraLaunchpadFactory::new();
    let nine_near: u128 = 9 * 10u128.pow(24);
    assert_eq!(
        factory.create_launchpad("factory.near", nine_near - 1),
        Err("Attached deposit must be at least 9 NEAR")
    );
    assert_eq!(factory.launchpad_count, 0);
    assert_eq!(
        factory.create_launchpad("factory.near", nine_near),
        Ok("lp-1.factory.near".to_string())
    );
    assert_eq!(factory.launchpad_count, 1);
}

#[test]
fn price_discovery_withdrawal_beyond_the_deposit_is_refused_first() {
    let mut investment = InvestmentAmount {
        amount: 100,
        weight: 100,
        claimed: 0,
    };
    let (mut deposited, mut sold) = (100, 100);
    assert_eq!(
        withdraw(
            &mut investment,
            101,
            &mut deposited,
            &mut sold,
            &config(Mechanics::PriceDiscovery),
            &DepositDistribution::Refund(5),
        ),
        Err("Not enough funds to withdraw")
    );
    assert_eq!((investment.amount, deposited, sold), (100, 100, 100));
}

#[test]
fn price_discovery_allocations_share_out_at_most_the_sale_amount() {
    let c = config(Mechanics::PriceDiscovery);
    // Three equal weights share a sale amount of 10_000 with 1 token lost to rounding.
    let weights = [1u128, 1, 1];
    let total: u128 = weights.iter().sum();
    let allocations: Vec<u128> = weights
        .iter()
        .map(|w| user_allocation(*w, total, &c).unwrap())
        .collect();
    assert_eq!(allocations, vec![3333, 3333, 3333]);
    let shared: u128 = allocations.iter().sum();
    assert!(shared <= c.sale_amount);
    assert!(c.sale_amount < shared + weights.len() as u128);
}

#[test]
fn owed_deposits_are_paid_solver_first_and_only_when_not_zero() {
    assert_eq!(owed_transfers(5, 3), vec![(true, 5), (false, 3)]);
    assert_eq!(owed_transfers(5, 0), vec![(true, 5)]);
    assert_eq!(owed_transfers(0, 3), vec![(false, 3)]);
    assert!(owed_transfers(0, 0).is_empty());
}
