//! The launchpad's state machine: deposit tokens, locking, withdrawals, unsold tokens, the
//! TGE, and the settlement of claims and withdrawals.
use aurora_launchpad_contract::contract::results::{PromiseOutcome, MAX_FT_RESULT_LENGTH};
use aurora_launchpad_contract::contract::withdraw::{BeforeWithdraw, WithdrawIntents};
use aurora_launchpad_contract::contract::AuroraLaunchpadContract;
use aurora_launchpad_contract::types::{
    DepositToken, DistributionAccount, DistributionProportions, IntentsAccount, InvestmentAmount,
    LaunchpadConfig, LaunchpadStatus, Mechanics, StakeholderProportion,
};
use chrono::DateTime;

const DEPOSIT_TOKEN_ID: &str = "wrap.near";
const SALE_TOKEN_ID: &str = "sale.token.near";
const INTENTS_ACCOUNT_ID: &str = "intents.near";
const SOLVER_ACCOUNT_ID: &str = "solver.near";
const NOW: u64 = 1_000_000_000;
const TEN_DAYS: u64 = 10 * 24 * 60 * 60;

const MULTIPLIER_18: u128 = 10u128.pow(18);
const MULTIPLIER_24: u128 = 10u128.pow(24);

/// The time at which the contract is looked at.
const AT: u64 = NOW + 10;

fn base_config(mechanics: Mechanics) -> LaunchpadConfig {
    LaunchpadConfig {
        deposit_token: DepositToken::Nep141(DEPOSIT_TOKEN_ID.to_string()),
        min_deposit: 100_000,
        sale_token_account_id: SALE_TOKEN_ID.to_string(),
        intents_account_id: INTENTS_ACCOUNT_ID.to_string(),
        start_date: NOW,
        end_date: NOW + TEN_DAYS,
        soft_cap: 1_000_000 * MULTIPLIER_24,
        mechanics,
        sale_amount: 3_000_000 * MULTIPLIER_18,
        total_sale_amount: 10_000_000 * MULTIPLIER_18,
        vesting_schedule: None,
        distribution_proportions: DistributionProportions {
            solver_account_id: DistributionAccount::Near(SOLVER_ACCOUNT_ID.to_string()),
            solver_allocation: 5_000_000 * MULTIPLIER_18,
            stakeholder_proportions: vec![StakeholderProportion {
                allocation: 2_000_000 * MULTIPLIER_18,
                account: DistributionAccount::Near("team.near".to_string()),
                vesting: None,
            }],
            deposits: None,
        },
        discounts: None,
        tge: None,
    }
}

fn prepare_contract() -> AuroraLaunchpadContract {
    let config = base_config(Mechanics::PriceDiscovery);
    let total_deposited = config.soft_cap;
    let mut contract = AuroraLaunchpadContract::new(config);
    contract.total_deposited = total_deposited;
    contract.is_sale_token_set = true;

    assert_eq!(contract.get_status(AT), LaunchpadStatus::Ongoing);

    contract
}

fn tge_nanos(timestamp: u64) -> Option<i64> {
    DateTime::from_timestamp_nanos(i64::try_from(timestamp).unwrap()).timestamp_nanos_opt()
}

#[test]
fn test_nep141_deposit_token() {
    let mut config = base_config(Mechanics::PriceDiscovery);
    config.deposit_token = DepositToken::Nep141("token.near".to_string());
    let contract = AuroraLaunchpadContract::new(config);

    assert!(contract.is_nep141_deposit_token(&"token.near".to_string()));
    assert!(!contract.is_nep141_deposit_token(&"other.near".to_string()));
}

#[test]
fn test_nep245_deposit_token() {
    let mut config = base_config(Mechanics::PriceDiscovery);
    config.deposit_token =
        DepositToken::Nep245("token.near".to_string(), "super_token".to_string());
    let contract = AuroraLaunchpadContract::new(config);

    assert!(contract
        .is_nep245_deposit_token(&"token.near".to_string(), &vec!["super_token".to_string()])
        .unwrap());
    assert!(!contract
        .is_nep245_deposit_token(
            &"other_token.near".to_string(),
            &vec!["super_token".to_string()]
        )
        .unwrap());
    assert!(!contract
        .is_nep245_deposit_token(&"token.near".to_string(), &vec!["just_token".to_string()])
        .unwrap());
}

#[test]
#[should_panic(expected = "Only one token_id is allowed for deposit")]
fn test_nep245_deposit_token_more_token_ids() {
    let mut config = base_config(Mechanics::PriceDiscovery);
    config.deposit_token =
        DepositToken::Nep245("token.near".to_string(), "super_token".to_string());
    let contract = AuroraLaunchpadContract::new(config);

    assert!(!contract
        .is_nep245_deposit_token(
            &"token.near".to_string(),
            &vec!["super_token".to_string(), "just_token".to_string()]
        )
        .unwrap());
}

#[test]
fn test_lock() {
    let mut contract = prepare_contract();
    contract.lock(AT).unwrap();
    assert_eq!(contract.get_status(AT), LaunchpadStatus::Locked);
}

#[test]
#[should_panic(expected = "The contract is not locked")]
fn test_unlock_without_lock() {
    let mut contract = prepare_contract();
    contract.unlock(AT).unwrap();
}

#[test]
#[should_panic(
    expected = "The contract can only be locked when status is NotStarted, Ongoing, or PreTGE"
)]
fn test_double_lock() {
    let mut contract = prepare_contract();
    contract.lock(AT).unwrap();
    contract.lock(AT).unwrap();
}

#[test]
fn test_is_withdrawal_allowed() {
    let mut contract = prepare_contract();

    let present = WithdrawIntents::Present { valid: true };
    let not_present = WithdrawIntents::NotPresent;

    assert!(contract.is_withdrawal_allowed(present, AT));
    assert!(!contract.is_withdrawal_allowed(not_present, AT));

    contract.lock(AT).unwrap();

    assert!(contract.is_withdrawal_allowed(present, AT));
    assert!(contract.is_withdrawal_allowed(not_present, AT));

    let mut contract = prepare_contract();

    contract.config.mechanics = Mechanics::FixedPrice {
        deposit_token: 0,
        sale_token: 0,
    };

    assert!(!contract.is_withdrawal_allowed(present, AT));
    assert!(!contract.is_withdrawal_allowed(not_present, AT));

    contract.lock(AT).unwrap();

    assert_eq!(contract.get_status(AT), LaunchpadStatus::Locked);
    assert!(contract.is_withdrawal_allowed(present, AT));
    assert!(contract.is_withdrawal_allowed(not_present, AT));

    contract.unlock(AT).unwrap();

    contract.config.end_date = NOW;
    contract.total_deposited -= 1;

    assert_eq!(contract.get_status(AT), LaunchpadStatus::Failed);
    assert!(contract.is_withdrawal_allowed(present, AT));
    assert!(contract.is_withdrawal_allowed(not_present, AT));
    assert!(!contract.is_withdrawal_allowed(WithdrawIntents::Present { valid: false }, AT));
}

#[test]
fn unsold_amount_of_tokens_fixed_price() {
    let create_config = |deposit, sale| {
        let mut config = base_config(Mechanics::FixedPrice {
            deposit_token: deposit,
            sale_token: sale,
        });

        config.distribution_proportions = DistributionProportions {
            solver_account_id: DistributionAccount::Near("solver.near".to_string()),
            solver_allocation: 0,
            stakeholder_proportions: vec![],
            deposits: None,
        };

        config.soft_cap = 1000;
        config.sale_amount = 12000;
        config.total_sale_amount = config.sale_amount;

        config
    };

    let config = create_config(1, 5);
    let total_deposited = config.soft_cap * 2;

    let mut contract = AuroraLaunchpadContract::new(config);
    contract.total_deposited = total_deposited;
    contract.total_sold_tokens = total_deposited * 5;
    contract.is_sale_token_set = true;

    assert_eq!(contract.unsold_amount_of_tokens(), 2000);

    let config = create_config(5, 1);
    let total_deposited = config.soft_cap * 2;

    let mut contract = AuroraLaunchpadContract::new(config);
    contract.total_deposited = total_deposited;
    contract.total_sold_tokens = total_deposited / 5;
    contract.is_sale_token_set = true;

    assert_eq!(contract.unsold_amount_of_tokens(), 11600);
}

#[test]
#[should_panic(expected = "TGE must be after the end of the sale and in the future")]
fn set_tge_before_end_of_sale() {
    let mut contract = prepare_contract();
    contract.config.end_date = NOW + 90;
    contract.config.tge = Some(NOW + 100);
    assert_eq!(contract.get_status(AT), LaunchpadStatus::Ongoing);
    // Attempt to set TGE before the end of the sale
    contract.update_tge(tge_nanos(NOW + 80), AT).unwrap();
}

#[test]
#[should_panic(expected = "TGE must be after the end of the sale and in the future")]
fn set_tge_in_the_past() {
    let mut contract = prepare_contract();
    contract.config.end_date = NOW + 90;
    contract.config.tge = Some(NOW + 100);
    assert_eq!(contract.get_status(AT), LaunchpadStatus::Ongoing);
    // Attempt to set TGE in the past
    contract.update_tge(tge_nanos(NOW - 1), AT).unwrap();
}

fn alice() -> IntentsAccount {
    IntentsAccount("alice.near".to_string())
}

fn claimed_contract(account: &IntentsAccount) -> AuroraLaunchpadContract {
    let mut contract = AuroraLaunchpadContract::new(base_config(Mechanics::PriceDiscovery));
    contract.investments.insert(
        account.clone(),
        InvestmentAmount {
            amount: 1000,
            weight: 1000,
            claimed: 1000,
        },
    );
    contract
}

#[test]
fn finish_mt_refund_treats_empty_result_vector_as_missing() {
    let contract = AuroraLaunchpadContract::new(base_config(Mechanics::PriceDiscovery));

    assert_eq!(
        contract.finish_mt_refund(100, &PromiseOutcome::Successful(b"[]".to_vec())),
        vec![0]
    );
}

#[test]
fn finish_mt_refund_subtracts_used_amount() {
    let contract = AuroraLaunchpadContract::new(base_config(Mechanics::PriceDiscovery));

    assert_eq!(
        contract.finish_mt_refund(100, &PromiseOutcome::Successful(b"[\"30\"]".to_vec())),
        vec![70]
    );
}

#[test]
fn finish_mt_refund_returns_all_of_a_failed_transfer() {
    let contract = AuroraLaunchpadContract::new(base_config(Mechanics::PriceDiscovery));

    assert_eq!(contract.finish_mt_refund(100, &PromiseOutcome::Failed), vec![100]);
}

#[test]
fn finish_claim_keeps_claimed_when_transfer_result_is_unparseable() {
    let account = alice();
    let mut contract = claimed_contract(&account);

    contract
        .finish_claim(
            &account,
            1000,
            &PromiseOutcome::Successful(b"not-a-u128".to_vec()),
        )
        .unwrap();

    assert_eq!(contract.investments.get(&account).unwrap().claimed, 1000);
}

#[test]
fn finish_claim_keeps_claimed_when_transfer_result_is_oversized() {
    let oversized_result = format!("\"{}\"", "0".repeat(MAX_FT_RESULT_LENGTH - 1)).into_bytes();
    assert!(oversized_result.len() > MAX_FT_RESULT_LENGTH);

    let account = alice();
    let mut contract = claimed_contract(&account);

    contract
        .finish_claim(&account, 1000, &PromiseOutcome::Successful(oversized_result))
        .unwrap();

    assert_eq!(contract.investments.get(&account).unwrap().claimed, 1000);
}

#[test]
fn finish_claim_restores_claimed_when_transfer_fails() {
    let account = alice();
    let mut contract = claimed_contract(&account);

    contract
        .finish_claim(&account, 1000, &PromiseOutcome::Failed)
        .unwrap();

    assert_eq!(contract.investments.get(&account).unwrap().claimed, 0);
}

/// The state after a full withdrawal of 100: the investment is debited and locked, and the
/// position from before is kept for a possible rollback.
fn contract_with_withdraw_in_flight(
    account: &IntentsAccount,
) -> (AuroraLaunchpadContract, BeforeWithdraw) {
    let mut contract = AuroraLaunchpadContract::new(base_config(Mechanics::PriceDiscovery));
    let investment = InvestmentAmount {
        amount: 100,
        weight: 100,
        claimed: 0,
    };
    contract
        .investments
        .insert(account.clone(), InvestmentAmount::default());
    contract.locked_withdraw.insert(account.clone(), ());
    (contract, (investment, 0, 0))
}

/// The state after a full fixed-price withdrawal where `7` deposit units had bought `3` sale
/// tokens.
fn fixed_price_contract_with_returned_dust(
    account: &IntentsAccount,
) -> (AuroraLaunchpadContract, BeforeWithdraw) {
    let mut contract = AuroraLaunchpadContract::new(base_config(Mechanics::FixedPrice {
        deposit_token: 7,
        sale_token: 3,
    }));
    let before = InvestmentAmount {
        amount: 7,
        weight: 3,
        claimed: 0,
    };

    contract
        .investments
        .insert(account.clone(), InvestmentAmount::default());
    contract.locked_withdraw.insert(account.clone(), ());

    (contract, (before, 0, 0))
}

#[test]
fn finish_ft_withdraw_does_not_panic_on_over_report() {
    let account = alice();
    let (mut contract, before) = contract_with_withdraw_in_flight(&account);

    // consumed = 150 > amount = 100: treat the withdrawal as fully consumed.
    contract
        .finish_ft_withdraw(
            &account,
            100,
            before,
            &PromiseOutcome::Successful(b"\"150\"".to_vec()),
            11,
        )
        .unwrap();

    assert_eq!(contract.investments.get(&account).unwrap().amount, 0);
    assert!(!contract.locked_withdraw.contains_key(&account));
}

#[test]
fn finish_ft_withdraw_restores_fixed_price_dust_remainder() {
    let account = alice();
    let (mut contract, before) = fixed_price_contract_with_returned_dust(&account);

    contract
        .finish_ft_withdraw(
            &account,
            7,
            before,
            &PromiseOutcome::Successful(b"\"6\"".to_vec()),
            11,
        )
        .unwrap();

    let investment = contract.investments.get(&account).unwrap();
    assert_eq!(investment.amount, 1);
    assert_eq!(investment.weight, 0);
    assert_eq!(contract.total_deposited, 1);
    assert_eq!(contract.total_sold_tokens, 0);
    assert!(!contract.locked_withdraw.contains_key(&account));
}

#[test]
fn finish_mt_withdraw_keeps_debit_on_empty_success_result() {
    let account = alice();
    let (mut contract, before) = contract_with_withdraw_in_flight(&account);

    contract
        .finish_mt_withdraw(&account, 100, before, &PromiseOutcome::Successful(Vec::new()), 11)
        .unwrap();

    assert_eq!(contract.investments.get(&account).unwrap().amount, 0);
    assert!(!contract.locked_withdraw.contains_key(&account));
}

#[test]
fn finish_mt_withdraw_keeps_debit_on_multi_element_success_result() {
    let account = alice();
    let (mut contract, before) = contract_with_withdraw_in_flight(&account);

    contract
        .finish_mt_withdraw(
            &account,
            100,
            before,
            &PromiseOutcome::Successful(b"[\"100\", \"40\"]".to_vec()),
            11,
        )
        .unwrap();

    assert_eq!(contract.investments.get(&account).unwrap().amount, 0);
    assert!(!contract.locked_withdraw.contains_key(&account));
}

#[test]
fn finish_mt_withdraw_rolls_back_on_zero_result() {
    let account = alice();
    let (mut contract, before) = contract_with_withdraw_in_flight(&account);

    contract
        .finish_mt_withdraw(
            &account,
            100,
            before,
            &PromiseOutcome::Successful(b"[\"0\"]".to_vec()),
            11,
        )
        .unwrap();

    assert_eq!(contract.investments.get(&account).unwrap().amount, 100);
    assert!(!contract.locked_withdraw.contains_key(&account));
}

#[test]
fn finish_mt_withdraw_rolls_back_on_failed_promise() {
    let account = alice();
    let (mut contract, before) = contract_with_withdraw_in_flight(&account);

    contract
        .finish_mt_withdraw(&account, 100, before, &PromiseOutcome::Failed, 11)
        .unwrap();

    assert_eq!(contract.investments.get(&account).unwrap().amount, 100);
    assert!(!contract.locked_withdraw.contains_key(&account));
}

#[test]
fn finish_mt_withdraw_restores_fixed_price_dust_remainder() {
    let account = alice();
    let (mut contract, before) = fixed_price_contract_with_returned_dust(&account);

    contract
        .finish_mt_withdraw(
            &account,
            7,
            before,
            &PromiseOutcome::Successful(b"[\"6\"]".to_vec()),
            11,
        )
        .unwrap();

    let investment = contract.investments.get(&account).unwrap();
    assert_eq!(investment.amount, 1);
    assert_eq!(investment.weight, 0);
    assert_eq!(contract.total_deposited, 1);
    assert_eq!(contract.total_sold_tokens, 0);
    assert!(!contract.locked_withdraw.contains_key(&account));
}

#[test]
fn finish_mt_withdraw_does_not_panic_on_over_report() {
    let account = alice();
    let (mut contract, before) = contract_with_withdraw_in_flight(&account);

    contract
        .finish_mt_withdraw(
            &account,
            100,
            before,
            &PromiseOutcome::Successful(b"[\"150\"]".to_vec()),
            11,
        )
        .unwrap();

    assert_eq!(contract.investments.get(&account).unwrap().amount, 0);
    assert!(!contract.locked_withdraw.contains_key(&account));
}
