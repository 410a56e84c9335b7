//! A launchpad through its life: initialization, deposits, withdrawals, claims,
//! distributions and administration.
use aurora_launchpad_contract::contract::admin::{
    AdminWithdrawal, WhitelistError, WithdrawalToken,
};
use aurora_launchpad_contract::contract::results::PromiseOutcome;
use aurora_launchpad_contract::contract::withdraw::{WithdrawIntents, WithdrawStep};
use aurora_launchpad_contract::contract::AuroraLaunchpadContract;
use aurora_launchpad_contract::types::{
    DepositDistribution, DepositToken, DepositsProportions, DiscountParams, DiscountPhase,
    DistributionAccount,
    DistributionProportions, Duration, IntentsAccount, InvestmentAmount, LaunchpadConfig,
    LaunchpadStatus, Mechanics, StakeholderProportion, VestingSchedule, VestingScheme,
};

const NOW: u64 = 1_000_000_000;
const TEN_DAYS: u64 = 10 * 24 * 60 * 60;
const AT: u64 = NOW + 10;
const AFTER_END: u64 = NOW + TEN_DAYS + 1;

fn config(mechanics: Mechanics) -> LaunchpadConfig {
    LaunchpadConfig {
        deposit_token: DepositToken::Nep141("wrap.near".to_string()),
        min_deposit: 1,
        sale_token_account_id: "sale.token.near".to_string(),
        intents_account_id: "intents.near".to_string(),
        start_date: NOW,
        end_date: NOW + TEN_DAYS,
        soft_cap: 1000,
        mechanics,
        sale_amount: 10_000,
        total_sale_amount: 20_000,
        vesting_schedule: None,
        distribution_proportions: DistributionProportions {
            solver_account_id: DistributionAccount::Near("solver.near".to_string()),
            solver_allocation: 5_000,
            stakeholder_proportions: vec![StakeholderProportion {
                account: DistributionAccount::Near("team.near".to_string()),
                allocation: 3_000,
                vesting: None,
            }],
            deposits: None,
        },
        discounts: None,
        tge: None,
    }
}

fn alice() -> IntentsAccount {
    IntentsAccount("alice.near".to_string())
}

fn started(mechanics: Mechanics) -> AuroraLaunchpadContract {
    let c = config(mechanics);
    let total = c.total_sale_amount;
    let mut contract = AuroraLaunchpadContract::new(c);
    assert_eq!(contract.init_contract(total), Ok(0));
    contract
}

#[test]
fn init_contract_takes_exactly_the_total_sale_amount() {
    let mut contract = AuroraLaunchpadContract::new(config(Mechanics::PriceDiscovery));
    assert_eq!(contract.get_status(AT), LaunchpadStatus::NotInitialized);
    assert_eq!(contract.init_contract(19_999), Err("Wrong total sale amount"));
    assert!(!contract.is_sale_token_set);
    assert_eq!(contract.init_contract(20_000), Ok(0));
    assert_eq!(contract.get_status(AT), LaunchpadStatus::Ongoing);
    assert_eq!(
        contract.init_contract(20_000),
        Err("The contract is already initialized")
    );
}

#[test]
fn status_follows_the_dates_the_soft_cap_and_the_tge() {
    let mut contract = started(Mechanics::PriceDiscovery);
    assert_eq!(contract.get_status(NOW - 1), LaunchpadStatus::NotStarted);
    assert!(contract.is_not_started(NOW - 1));
    assert!(contract.is_ongoing(AT));
    assert_eq!(contract.get_status(AFTER_END), LaunchpadStatus::Failed);
    assert!(contract.is_failed(AFTER_END));
    contract.total_deposited = 1000;
    assert!(contract.is_success(AFTER_END));
    contract.config.tge = Some(AFTER_END + 100);
    assert!(contract.is_pre_tge_period(AFTER_END));
    assert!(contract.is_success(AFTER_END + 100));
}

#[test]
fn fixed_price_sale_succeeds_once_sold_out() {
    let mut contract = started(Mechanics::FixedPrice {
        deposit_token: 1,
        sale_token: 1,
    });
    contract.total_sold_tokens = 10_000;
    assert_eq!(contract.get_status(AT), LaunchpadStatus::Success);
    contract.config.tge = Some(AFTER_END);
    assert_eq!(contract.get_status(AT), LaunchpadStatus::PreTGE);
}

#[test]
fn final_status_stays_once_the_sale_ended() {
    let mut contract = started(Mechanics::PriceDiscovery);
    assert_eq!(contract.get_status(AFTER_END), LaunchpadStatus::Failed);
    assert_eq!(contract.get_status(AFTER_END + 1_000_000), LaunchpadStatus::Failed);
    contract.total_deposited = 5000;
    assert_eq!(contract.get_status(AFTER_END), LaunchpadStatus::Success);
    assert_eq!(contract.get_status(u64::MAX), LaunchpadStatus::Success);
}

#[test]
fn lock_then_unlock_gives_back_the_status() {
    let mut contract = started(Mechanics::PriceDiscovery);
    let before = contract.get_status(AT);
    contract.lock(AT).unwrap();
    assert!(contract.is_locked(AT));
    contract.unlock(AT).unwrap();
    assert_eq!(contract.get_status(AT), before);
    assert!(!contract.is_locked);
}

#[test]
fn lock_is_refused_after_the_sale() {
    let mut contract = started(Mechanics::PriceDiscovery);
    assert_eq!(
        contract.lock(AFTER_END),
        Err("The contract can only be locked when status is NotStarted, Ongoing, or PreTGE")
    );
    assert!(!contract.is_locked);
}

#[test]
fn deposits_are_credited_and_investors_counted() {
    let mut contract = started(Mechanics::PriceDiscovery);
    assert_eq!(
        contract.handle_deposit(100, "alice.near", NOW - 1),
        Err("Launchpad is not ongoing")
    );
    assert_eq!(contract.handle_deposit(100, "alice.near", AT), Ok(0));
    assert_eq!(contract.handle_deposit(50, "alice.near", AT), Ok(0));
    assert_eq!(contract.get_participants_count(), 1);
    assert_eq!(contract.get_investments(&alice()), Some(150));
    assert_eq!(contract.get_total_deposited(), 150);
    assert_eq!(contract.get_sold_amount(), 150);
    assert_eq!(
        contract.handle_deposit(100, "wallet.near:bob.near", AT),
        Ok(0)
    );
    assert_eq!(contract.get_participants_count(), 2);
    assert_eq!(
        contract.get_investments(&IntentsAccount("bob.near".to_string())),
        Some(100)
    );
    assert_eq!(
        contract.handle_deposit(100, "Wallet:carol.near", AT),
        Err("Invalid NEAR account_id")
    );
    assert_eq!(contract.get_participants_count(), 2);
    assert_eq!(contract.get_total_deposited(), 250);
}

#[test]
fn fixed_price_deposit_beyond_the_sale_amount_is_refunded() {
    let mut contract = started(Mechanics::FixedPrice {
        deposit_token: 1,
        sale_token: 2,
    });
    // 6000 deposit units buy 12_000 sale tokens, but only 10_000 are for sale.
    assert_eq!(contract.handle_deposit(6000, "alice.near", AT), Ok(1000));
    assert_eq!(contract.get_investments(&alice()), Some(5000));
    assert_eq!(contract.get_sold_amount(), 10_000);
    assert_eq!(contract.get_status(AT), LaunchpadStatus::Success);
}

#[test]
fn discounted_fixed_price_deposits_are_recorded_in_the_phase() {
    let mut c = config(Mechanics::FixedPrice {
        deposit_token: 1,
        sale_token: 2,
    });
    c.discounts = Some(DiscountParams {
        phases: vec![DiscountPhase {
            id: 7,
            start_time: NOW,
            end_time: NOW + 100,
            percentage: 1000,
            phase_sale_limit: Some(3000),
            ..Default::default()
        }],
        public_sale_start_time: None,
    });
    let mut contract = AuroraLaunchpadContract::new(c);
    contract.init_contract(20_000).unwrap();
    // 1000 units with 10% buy 2200 sale tokens of the 3000 of the phase.
    assert_eq!(contract.handle_deposit(1000, "alice.near", AT), Ok(0));
    assert_eq!(contract.get_sold_amount(), 2200);
    // The phase has 800 left: 363 units with 10% (800 tokens, rounded down) go there, the
    // rest of the 1000 units buys at the public price.
    assert_eq!(contract.handle_deposit(1000, "alice.near", AT), Ok(0));
    assert_eq!(contract.get_sold_amount(), 2200 + 800 + 2 * (1000 - 363));
}

#[test]
fn withdrawal_needs_allowance_and_verified_intents() {
    let mut contract = started(Mechanics::PriceDiscovery);
    contract.handle_deposit(1000, "alice.near", AT).unwrap();

    assert_eq!(
        contract.withdraw(500, &alice(), None, AT),
        Err("Withdraw is not allowed")
    );
    assert_eq!(
        contract.withdraw(500, &alice(), Some(0), AT),
        Err("No intent provided")
    );
    assert_eq!(
        contract.withdraw(500, &alice(), Some(11), AT),
        Err("Too much intent provided")
    );
    assert_eq!(
        contract.withdraw(500, &alice(), Some(2), AT),
        Ok(WithdrawStep::VerifyIntents)
    );
    assert_eq!(
        contract.do_withdraw_with_intents(
            500,
            &alice(),
            2,
            &vec![PromiseOutcome::Successful(b"true".to_vec())],
            None,
            AT
        ),
        Err("Wrong number of promise results")
    );
    assert_eq!(
        contract.do_withdraw_with_intents(
            500,
            &alice(),
            1,
            &vec![PromiseOutcome::Successful(b"false".to_vec())],
            None,
            AT
        ),
        Err("Withdraw is not allowed")
    );
    let (refund, before) = contract
        .do_withdraw_with_intents(
            500,
            &alice(),
            1,
            &vec![PromiseOutcome::Successful(b"true".to_vec())],
            Some(false),
            AT,
        )
        .unwrap();
    assert!(refund);
    assert_eq!(
        before,
        (
            InvestmentAmount {
                amount: 1000,
                weight: 1000,
                claimed: 0
            },
            1000,
            1000
        )
    );
    assert_eq!(contract.get_investments(&alice()), Some(500));
    assert_eq!(contract.get_sold_amount(), 500);
    assert_eq!(
        contract.withdraw(100, &alice(), Some(1), AT),
        Err("Withdraw is still in progress")
    );

    // The transfer failed: everything is as before the withdrawal.
    contract
        .finish_ft_withdraw(&alice(), 500, before, &PromiseOutcome::Failed, AT)
        .unwrap();
    assert_eq!(contract.get_investments(&alice()), Some(1000));
    assert_eq!(contract.get_total_deposited(), 1000);
    assert_eq!(contract.get_sold_amount(), 1000);
    assert!(!contract.locked_withdraw.contains_key(&alice()));
}

#[test]
fn withdrawal_after_a_failed_sale() {
    let mut contract = started(Mechanics::PriceDiscovery);
    contract.handle_deposit(400, "alice.near", AT).unwrap();
    assert_eq!(
        contract.withdraw(500, &alice(), None, AFTER_END),
        Err("Withdraw amount is greater than the deposit amount")
    );
    assert_eq!(
        contract.withdraw(10, &IntentsAccount("nobody.near".to_string()), None, AFTER_END),
        Err("No deposit for the intents account")
    );
    let step = contract.withdraw(400, &alice(), None, AFTER_END).unwrap();
    let before = match step {
        WithdrawStep::Transfer(before) => before,
        WithdrawStep::VerifyIntents => panic!("no intents were given"),
    };
    assert_eq!(contract.get_investments(&alice()), Some(0));
    // The transfer used everything: the withdrawal stands.
    contract
        .finish_ft_withdraw(
            &alice(),
            400,
            before,
            &PromiseOutcome::Successful(b"\"400\"".to_vec()),
            AFTER_END,
        )
        .unwrap();
    assert_eq!(contract.get_investments(&alice()), Some(0));
    assert_eq!(contract.get_total_deposited(), 0);
}

#[test]
fn price_discovery_withdrawal_cannot_use_a_refund_distribution() {
    let mut c = config(Mechanics::PriceDiscovery);
    c.discounts = Some(DiscountParams {
        phases: vec![],
        public_sale_start_time: Some(NOW + TEN_DAYS),
    });
    let mut contract = AuroraLaunchpadContract::new(c);
    contract.init_contract(20_000).unwrap();
    contract.investments.insert(
        alice(),
        InvestmentAmount {
            amount: 100,
            weight: 100,
            claimed: 0,
        },
    );
    assert_eq!(
        contract.do_withdraw(50, &alice(), AT),
        Err("Refund in withdrawal is not supported")
    );
    assert_eq!(contract.get_investments(&alice()), Some(100));
}

#[test]
fn partly_used_fixed_price_withdrawal_must_not_refund() {
    let mut contract = started(Mechanics::FixedPrice {
        deposit_token: 1,
        sale_token: 1,
    });
    contract.investments.insert(alice(), InvestmentAmount::default());
    contract.total_sold_tokens = 10_000;
    // Returning 100 units would buy 100 more sale tokens, but nothing is left for sale.
    assert_eq!(
        contract.finish_ft_withdraw(
            &alice(),
            200,
            (InvestmentAmount::default(), 0, 10_000),
            &PromiseOutcome::Successful(b"\"100\"".to_vec()),
            AFTER_END,
        ),
        Err("Unexpected refund")
    );
    assert_eq!(
        contract.finish_ft_withdraw(
            &IntentsAccount("nobody.near".to_string()),
            200,
            (InvestmentAmount::default(), 0, 10_000),
            &PromiseOutcome::Successful(b"\"100\"".to_vec()),
            AFTER_END,
        ),
        Err("No deposits were found for the intents account")
    );
}

fn successful_fixed_price() -> AuroraLaunchpadContract {
    let mut contract = started(Mechanics::FixedPrice {
        deposit_token: 1,
        sale_token: 1,
    });
    contract.handle_deposit(2000, "alice.near", AT).unwrap();
    assert_eq!(contract.get_status(AFTER_END), LaunchpadStatus::Success);
    contract
}

#[test]
fn claim_then_failed_transfer_gives_the_claim_back() {
    let mut contract = successful_fixed_price();
    assert_eq!(
        contract.claim(&alice(), AT),
        Err("Claim can be called only if the launchpad finishes with success status")
    );
    assert_eq!(
        contract.claim(&IntentsAccount("nobody.near".to_string()), AFTER_END),
        Err("No deposit was found for the intents account")
    );
    assert_eq!(contract.get_available_for_claim(&alice(), AFTER_END), 2000);
    assert_eq!(contract.claim(&alice(), AFTER_END), Ok(2000));
    assert_eq!(contract.get_claimed(&alice()), Some(2000));
    assert_eq!(contract.claim(&alice(), AFTER_END), Err("No assets to claim"));
    contract
        .finish_claim(&alice(), 2000, &PromiseOutcome::Failed)
        .unwrap();
    assert_eq!(contract.get_claimed(&alice()), Some(0));
    // A transfer that used part of the claim gives back the rest.
    assert_eq!(contract.claim(&alice(), AFTER_END), Ok(2000));
    contract
        .finish_claim(
            &alice(),
            2000,
            &PromiseOutcome::Successful(b"\"1500\"".to_vec()),
        )
        .unwrap();
    assert_eq!(contract.get_claimed(&alice()), Some(1500));
}

#[test]
fn allocations_and_remaining_vesting() {
    let mut contract = successful_fixed_price();
    contract.config.vesting_schedule = Some(VestingSchedule {
        cliff_period: Duration::from_nanos(0),
        vesting_period: Duration::from_nanos(1000),
        instant_claim_percentage: None,
        vesting_scheme: VestingScheme::Immediate,
    });
    let end = NOW + TEN_DAYS;
    assert_eq!(contract.get_user_allocation(&alice()), 2000);
    assert_eq!(contract.get_available_for_claim(&alice(), end + 250), 500);
    assert_eq!(contract.get_remaining_vesting(&alice(), end + 250), 1500);
    assert_eq!(contract.get_remaining_vesting(&alice(), end + 1000), 0);
    assert_eq!(
        contract.get_user_allocation(&IntentsAccount("nobody.near".to_string())),
        0
    );
}

fn with_individual_vesting() -> AuroraLaunchpadContract {
    let mut contract = successful_fixed_price();
    contract
        .config
        .distribution_proportions
        .stakeholder_proportions
        .push(StakeholderProportion {
            account: DistributionAccount::Intents(IntentsAccount("advisor.near".to_string())),
            allocation: 1000,
            vesting: Some(VestingSchedule {
                cliff_period: Duration::from_nanos(100),
                vesting_period: Duration::from_nanos(1000),
                instant_claim_percentage: Some(1000),
                vesting_scheme: VestingScheme::Immediate,
            }),
        });
    contract
}

#[test]
fn individual_vesting_claims() {
    let mut contract = with_individual_vesting();
    let advisor = DistributionAccount::Intents(IntentsAccount("advisor.near".to_string()));
    let end = NOW + TEN_DAYS;
    assert_eq!(contract.get_individual_vesting_user_allocation(&advisor), 1000);
    // Before the cliff only the instant claim (10%) is released.
    assert_eq!(
        contract.get_available_for_individual_vesting_claim(&advisor, end + 50),
        100
    );
    assert_eq!(
        contract.get_individual_vesting_remaining_vesting(&advisor, end + 50),
        900
    );
    assert_eq!(
        contract.claim_individual_vesting(&advisor, end + 50),
        Ok((100, true))
    );
    assert_eq!(contract.get_individual_vesting_claimed(&advisor), Some(100));
    assert_eq!(
        contract.claim_individual_vesting(&advisor, end + 50),
        Err("No assets to claim")
    );
    // The call reports that 30 of the 100 were used: 70 can be claimed again.
    contract
        .finish_claim_individual_vesting(
            &advisor,
            100,
            true,
            &PromiseOutcome::Successful(b"\"30\"".to_vec()),
        )
        .unwrap();
    assert_eq!(contract.get_individual_vesting_claimed(&advisor), Some(30));
    assert_eq!(
        contract.claim_individual_vesting(
            &DistributionAccount::Near("team.near".to_string()),
            end + 50
        ),
        Err("No proportion was found for the account")
    );
}

#[test]
fn sale_tokens_are_distributed_once() {
    let mut contract = successful_fixed_price();
    let solver = DistributionAccount::Near("solver.near".to_string());
    let team = DistributionAccount::Near("team.near".to_string());
    assert_eq!(
        contract.get_filtered_distributions(),
        vec![(solver.clone(), 5000), (team.clone(), 3000)]
    );
    assert!(contract.distribute_tokens(AT).is_err());
    let distributions = contract.distribute_tokens(AFTER_END).unwrap();
    assert_eq!(
        distributions.ft_transfers,
        vec![(solver.clone(), 5000), (team.clone(), 3000)]
    );
    assert!(distributions.ft_transfer_calls.is_empty());
    assert_eq!(contract.distributed_accounts.get(&solver), Some((0, true)));
    assert!(contract.get_filtered_distributions().is_empty());
    assert_eq!(
        contract.distribute_tokens(AFTER_END).err(),
        Some("Tokens have been already distributed")
    );
    let again = aurora_launchpad_contract::contract::distribute::Distributions {
        ft_transfers: vec![(solver.clone(), 5000), (team.clone(), 3000)],
        ft_transfer_calls: vec![],
    };
    assert_eq!(
        contract.finish_distribution(again, &vec![]),
        Err("Mismatched number of promise results")
    );
    contract
        .finish_distribution(distributions, &vec![PromiseOutcome::Successful(vec![])])
        .unwrap();
    assert_eq!(contract.distributed_accounts.get(&solver), Some((5000, false)));
    assert_eq!(contract.distributed_accounts.get(&team), Some((3000, false)));
    assert!(contract.get_filtered_distributions().is_empty());
}

#[test]
fn deposited_tokens_are_split_with_the_fee_account() {
    let mut contract = successful_fixed_price();
    contract.config.distribution_proportions.deposits = Some(DepositsProportions {
        fee_account: IntentsAccount("fee.near".to_string()),
        fee_percentage: 1000,
    });
    assert_eq!(contract.calculate_distribution(), Ok((1800, 200)));
    assert!(!contract.is_deposits_distributed());
    assert_eq!(
        contract.admin_withdraw(WithdrawalToken::Deposit, None, AFTER_END),
        Err("Deposits distribution should be completed first")
    );
    assert_eq!(contract.distribute_deposit_tokens(AFTER_END), Ok((1800, 200)));
    assert_eq!(
        contract.distribute_deposit_tokens(AFTER_END),
        Err("Deposit distribution is ongoing")
    );
    contract
        .finish_distribute_deposits(
            1800,
            200,
            true,
            &vec![
                PromiseOutcome::Successful(b"\"1800\"".to_vec()),
                PromiseOutcome::Successful(b"\"200\"".to_vec()),
            ],
        )
        .unwrap();
    assert!(contract.is_deposits_distributed());
    assert_eq!(
        contract.distribute_deposit_tokens(AFTER_END),
        Err("Deposit tokens have been already distributed")
    );
    assert_eq!(
        contract.admin_withdraw(WithdrawalToken::Deposit, Some(5), AFTER_END),
        Ok(AdminWithdrawal {
            token: WithdrawalToken::Deposit,
            amount: Some(5),
            is_unsold: false
        })
    );
}

#[test]
fn unsold_sale_tokens_are_withdrawn_by_the_admin() {
    let mut contract = successful_fixed_price();
    assert_eq!(contract.unsold_amount_of_tokens(), 8000);
    assert_eq!(
        contract.admin_withdraw(WithdrawalToken::Sale, Some(9000), AFTER_END),
        Err("The amount is greater than the available number of unsold tokens")
    );
    assert_eq!(
        contract.admin_withdraw(WithdrawalToken::Sale, None, AFTER_END),
        Ok(AdminWithdrawal {
            token: WithdrawalToken::Sale,
            amount: Some(8000),
            is_unsold: true
        })
    );
    assert_eq!(
        contract.admin_withdraw(WithdrawalToken::Sale, None, AFTER_END),
        Err("Withdrawal is already ongoing")
    );
    contract.finish_unsold_withdrawal(8000, false, &PromiseOutcome::Successful(vec![]));
    assert!(!contract.withdrawn_unsold_tokens.is_ongoing);
    assert_eq!(contract.unsold_amount_of_tokens(), 0);
    assert_eq!(
        contract.admin_withdraw(WithdrawalToken::Sale, None, AFTER_END),
        Err("Sale tokens could be withdrawn after failing, in locked mode, or if there are unsold tokens")
    );
}

#[test]
fn the_tge_can_move_later_only_before_the_end() {
    let mut contract = started(Mechanics::PriceDiscovery);
    assert_eq!(
        contract.update_tge(None, AT),
        Err("Provided TGE is out of range")
    );
    assert_eq!(
        contract.update_tge(Some(-5), AT),
        Err("Negative TGE timestamp value is not allowed")
    );
    let tge = i64::try_from(NOW + TEN_DAYS + 100).unwrap();
    assert_eq!(contract.update_tge(Some(tge), AT), Ok(()));
    assert_eq!(contract.get_tge(), Some(tge));
    assert_eq!(
        contract.update_tge(Some(tge), AFTER_END + 1000),
        Err("Wrong status of the contract for the TGE update")
    );
}

#[test]
fn whitelists_of_discount_phases() {
    let mut c = config(Mechanics::PriceDiscovery);
    c.discounts = Some(DiscountParams {
        phases: vec![
            DiscountPhase {
                id: 1,
                start_time: NOW,
                end_time: NOW + 100,
                percentage: 1000,
                ..Default::default()
            },
            DiscountPhase {
                id: 2,
                start_time: NOW,
                end_time: NOW + 100,
                percentage: 500,
                whitelist: Some(vec![alice()]),
                ..Default::default()
            },
        ],
        public_sale_start_time: None,
    });
    let mut contract = AuroraLaunchpadContract::new(c);
    assert_eq!(contract.get_whitelist_for_discount_phase(1), None);
    assert_eq!(contract.get_whitelist_for_discount_phase(2), Some(vec![alice()]));
    assert_eq!(
        contract.extend_whitelist_for_discount_phase(9, vec![alice()]),
        Err(WhitelistError::PhaseNotFound)
    );
    assert_eq!(
        contract.remove_from_whitelist_for_discount_phase(1, vec![alice()]),
        Err(WhitelistError::NoWhitelist)
    );
    let bob = IntentsAccount("bob.near".to_string());
    contract
        .extend_whitelist_for_discount_phase(1, vec![bob.clone(), bob.clone()])
        .unwrap();
    assert_eq!(contract.get_whitelist_for_discount_phase(1), Some(vec![bob.clone()]));
    contract
        .remove_from_whitelist_for_discount_phase(2, vec![alice()])
        .unwrap();
    assert_eq!(contract.get_whitelist_for_discount_phase(2), Some(vec![]));
}

fn investment(contract: &AuroraLaunchpadContract, name: &str) -> InvestmentAmount {
    contract
        .investments
        .get(&IntentsAccount(name.to_string()))
        .unwrap()
}

#[test]
fn totals_stay_the_sums_of_the_investments() {
    let mut contract = started(Mechanics::PriceDiscovery);
    contract.handle_deposit(1000, "alice.near", AT).unwrap();
    contract.handle_deposit(400, "bob.near", AT).unwrap();
    let checks = vec![PromiseOutcome::Successful(b"true".to_vec())];
    let (_, before) = contract
        .do_withdraw_with_intents(300, &alice(), 1, &checks, None, AT)
        .unwrap();
    contract
        .finish_ft_withdraw(
            &alice(),
            300,
            before,
            &PromiseOutcome::Successful(b"\"100\"".to_vec()),
            AT,
        )
        .unwrap();

    let (alice_investment, bob_investment) =
        (investment(&contract, "alice.near"), investment(&contract, "bob.near"));
    assert_eq!(alice_investment.amount, 900);
    assert_eq!(
        contract.total_deposited,
        alice_investment.amount + bob_investment.amount
    );
    assert_eq!(
        contract.total_sold_tokens,
        alice_investment.weight + bob_investment.weight
    );
}

#[test]
fn a_failed_withdrawal_restores_the_totals_it_saw() {
    let mut contract = started(Mechanics::PriceDiscovery);
    contract.handle_deposit(1000, "alice.near", AT).unwrap();
    let checks = vec![PromiseOutcome::Successful(b"true".to_vec())];
    let (_, before) = contract
        .do_withdraw_with_intents(300, &alice(), 1, &checks, None, AT)
        .unwrap();
    // Another deposit arrives while the transfer is in flight; rolling back the failed
    // transfer restores the totals from before the withdrawal.
    contract.handle_deposit(400, "bob.near", AT).unwrap();
    contract
        .finish_ft_withdraw(&alice(), 300, before, &PromiseOutcome::Failed, AT)
        .unwrap();
    assert_eq!(investment(&contract, "alice.near").amount, 1000);
    assert_eq!(contract.total_deposited, 1000);
}

#[test]
fn a_fixed_price_deposit_never_buys_past_the_sale_amount() {
    // 1 deposit unit buys 2 sale tokens; 100 of 101 sale tokens are sold.
    let mut c = config(Mechanics::FixedPrice {
        deposit_token: 1,
        sale_token: 2,
    });
    c.sale_amount = 101;
    let total = c.total_sale_amount;
    let mut contract = AuroraLaunchpadContract::new(c);
    contract.init_contract(total).unwrap();
    contract.total_sold_tokens = 100;
    // One unit would buy two tokens with one left: it is refunded in full.
    assert_eq!(contract.handle_deposit(1, "alice.near", AT), Ok(1));
    assert_eq!(contract.get_sold_amount(), 100);
    assert_eq!(contract.get_investments(&alice()), Some(0));
}

#[test]
fn a_capped_phase_takes_its_whole_cap_off_what_is_available() {
    // 3 deposit units buy 2 sale tokens; 3 sale tokens are left.
    let mut c = config(Mechanics::FixedPrice {
        deposit_token: 3,
        sale_token: 2,
    });
    c.sale_amount = 10;
    c.discounts = Some(DiscountParams {
        phases: vec![
            DiscountPhase {
                id: 0,
                start_time: NOW,
                end_time: NOW + 100,
                percentage: 0,
                max_limit_per_account: Some(3),
                ..Default::default()
            },
            DiscountPhase {
                id: 1,
                start_time: NOW,
                end_time: NOW + 100,
                percentage: 0,
                ..Default::default()
            },
        ],
        public_sale_start_time: None,
    });
    let total = c.total_sale_amount;
    let mut contract = AuroraLaunchpadContract::new(c);
    contract.init_contract(total).unwrap();
    contract.total_sold_tokens = 7;
    // The first phase is capped at the 3 tokens left, which leaves nothing for the second.
    let distribution = contract.get_deposit_distribution(&alice(), 6, AT);
    assert_eq!(
        distribution,
        DepositDistribution::WithDiscount {
            phase_weights: vec![(0, 4)],
            public_sale_weight: 0,
            refund: 2,
        }
    );
    assert_eq!(contract.handle_deposit(6, "alice.near", AT), Ok(2));
    assert!(contract.get_sold_amount() <= 10);
    assert_eq!(contract.get_sold_amount(), 9);
}

#[test]
fn rounding_dust_of_a_capped_phase_does_not_reach_the_next_phase() {
    // 2 deposit units buy 3 sale tokens; 2 sale tokens are left.
    let mut c = config(Mechanics::FixedPrice {
        deposit_token: 2,
        sale_token: 3,
    });
    c.sale_amount = 10;
    c.discounts = Some(DiscountParams {
        phases: vec![
            DiscountPhase {
                id: 0,
                start_time: NOW,
                end_time: NOW + 100,
                percentage: 0,
                max_limit_per_account: Some(2),
                ..Default::default()
            },
            DiscountPhase {
                id: 1,
                start_time: NOW,
                end_time: NOW + 100,
                percentage: 0,
                ..Default::default()
            },
        ],
        public_sale_start_time: None,
    });
    let total = c.total_sale_amount;
    let mut contract = AuroraLaunchpadContract::new(c);
    contract.init_contract(total).unwrap();
    contract.total_sold_tokens = 8;
    let distribution = contract.get_deposit_distribution(&alice(), 2, AT);
    assert_eq!(
        distribution,
        DepositDistribution::WithDiscount {
            phase_weights: vec![(0, 1)],
            public_sale_weight: 0,
            refund: 1,
        }
    );
    assert_eq!(contract.handle_deposit(2, "alice.near", AT), Ok(1));
    assert_eq!(contract.get_sold_amount(), 9);
}
