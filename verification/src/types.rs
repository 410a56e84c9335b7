//! The data model of a launchpad: configuration, mechanics, vesting, investments and
//! deposit distributions.
use vstd::prelude::*;

verus! {

/// Basis-point denominator used by percentages (10_000 = 100%).
pub const MULTIPLIER: u128 = 10_000;

/// An account on the intents contract.
#[derive(Debug, Clone, PartialEq, Eq)]
pub struct IntentsAccount(pub String);

/// An intents account as named in a deposit message.
#[derive(Debug, Clone, PartialEq, Eq)]
pub struct IntentAccount(pub String);

/// A recipient of distributed sale tokens: a NEAR account or an intents account.
#[derive(Debug, Clone, PartialEq, Eq)]
pub enum DistributionAccount {
    Near(String),
    Intents(IntentsAccount),
}

impl DistributionAccount {
    /// The account as a plain character sequence together with its kind.
    pub open spec fn identity(self) -> (bool, Seq<char>) {
        match self {
            DistributionAccount::Near(s) => (false, s@),
            DistributionAccount::Intents(a) => (true, a.0@),
        }
    }

    /// Compares two distribution accounts.
    pub fn same_as(&self, other: &DistributionAccount) -> (r: bool)
        ensures
            r == (self.identity() == other.identity()),
    {
        match self {
            DistributionAccount::Near(a) => match other {
                DistributionAccount::Near(b) => *a == *b,
                DistributionAccount::Intents(_) => false,
            },
            DistributionAccount::Intents(a) => match other {
                DistributionAccount::Near(_) => false,
                DistributionAccount::Intents(b) => a.0 == b.0,
            },
        }
    }
}

/// The token accepted as deposit: a NEP-141 token contract, or a NEP-245 contract and token id.
#[derive(Debug, Clone, PartialEq, Eq)]
pub enum DepositToken {
    Nep141(String),
    Nep245(String, String),
}

/// Sale mechanics.
#[derive(Debug, Clone, Copy, PartialEq, Eq, Structural)]
pub enum Mechanics {
    /// `deposit_token` deposit units buy `sale_token` sale units.
    FixedPrice { deposit_token: u128, sale_token: u128 },
    /// Sale tokens are shared in proportion to the weights of the deposits.
    PriceDiscovery,
}

impl Mechanics {
    pub open spec fn is_fixed_price(self) -> bool {
        self is FixedPrice
    }

    /// The price fraction of a fixed-price sale.
    pub open spec fn price(self) -> (u128, u128) {
        match self {
            Mechanics::FixedPrice { deposit_token, sale_token } => (deposit_token, sale_token),
            Mechanics::PriceDiscovery => (1, 1),
        }
    }

    /// Whether the mechanics are a fixed price.
    pub fn is_fixed_price_mechanics(&self) -> (r: bool)
        ensures
            r == self.is_fixed_price(),
    {
        match self {
            Mechanics::FixedPrice { .. } => true,
            Mechanics::PriceDiscovery => false,
        }
    }

    /// A fixed price has non-zero terms (price discovery has no price).
    pub open spec fn valid(self) -> bool {
        match self {
            Mechanics::FixedPrice { deposit_token, sale_token } => deposit_token > 0 && sale_token
                > 0,
            Mechanics::PriceDiscovery => true,
        }
    }
}

/// A span of time in nanoseconds.
#[derive(Debug, Clone, Copy, PartialEq, Eq)]
pub struct Duration {
    pub nanos: u64,
}

impl Duration {
    pub fn from_nanos(nanos: u64) -> (r: Duration)
        ensures
            r.nanos == nanos,
    {
        Duration { nanos }
    }

    pub fn as_nanos(&self) -> (r: u64)
        ensures
            r == self.nanos,
    {
        self.nanos
    }
}

impl From<u64> for Duration {
    fn from(nanos: u64) -> (r: Duration) {
        Duration { nanos }
    }
}

impl vstd::std_specs::convert::FromSpecImpl<u64> for Duration {
    open spec fn obeys_from_spec() -> bool {
        true
    }

    open spec fn from_spec(nanos: u64) -> Duration {
        Duration { nanos }
    }
}

/// When the linear release of a vesting schedule begins.
#[derive(Debug, Clone, Copy, PartialEq, Eq)]
pub enum VestingScheme {
    /// Tokens accrue from the vesting start; nothing is released before the cliff.
    Immediate,
    /// Tokens accrue from the end of the cliff.
    AfterCliff,
}

/// A vesting schedule relative to a vesting start.
#[derive(Debug, Clone, Copy, PartialEq, Eq)]
pub struct VestingSchedule {
    pub cliff_period: Duration,
    pub vesting_period: Duration,
    /// Share of the allocation released at once, in basis points.
    pub instant_claim_percentage: Option<u16>,
    pub vesting_scheme: VestingScheme,
}

/// A stakeholder's allocation of sale tokens.
#[derive(Debug, Clone, PartialEq, Eq)]
pub struct StakeholderProportion {
    pub account: DistributionAccount,
    pub allocation: u128,
    pub vesting: Option<VestingSchedule>,
}

/// How the deposited tokens are split between the solver and a fee account.
#[derive(Debug, Clone, PartialEq, Eq)]
pub struct DepositsProportions {
    pub fee_account: IntentsAccount,
    /// Share of the deposits that goes to the fee account, in basis points.
    pub fee_percentage: u16,
}

/// Distribution of the sale tokens that are not sold.
#[derive(Debug, Clone, PartialEq, Eq)]
pub struct DistributionProportions {
    pub solver_account_id: DistributionAccount,
    pub solver_allocation: u128,
    pub stakeholder_proportions: Vec<StakeholderProportion>,
    pub deposits: Option<DepositsProportions>,
}

/// A user's position: deposited amount, weight (sale tokens for a fixed price, discounted
/// deposit for price discovery) and the amount of sale tokens already claimed.
#[derive(Debug, Clone, Copy, PartialEq, Eq, Default, Structural)]
pub struct InvestmentAmount {
    pub amount: u128,
    pub weight: u128,
    pub claimed: u128,
}

impl InvestmentAmount {
    pub fn new() -> (r: InvestmentAmount)
        ensures
            r.amount == 0 && r.weight == 0 && r.claimed == 0,
    {
        InvestmentAmount { amount: 0, weight: 0, claimed: 0 }
    }
}

/// The status of a launchpad.
#[derive(Debug, Clone, Copy, PartialEq, Eq, Structural)]
pub enum LaunchpadStatus {
    NotInitialized,
    NotStarted,
    Ongoing,
    PreTGE,
    Success,
    Failed,
    Locked,
}

/// One discount phase.
#[derive(Debug, Clone, PartialEq, Eq, Default)]
pub struct DiscountPhase {
    pub id: u16,
    pub start_time: u64,
    pub end_time: u64,
    /// Extra weight granted by the phase, in basis points.
    pub percentage: u16,
    /// Accounts allowed in the phase; every account when absent.
    pub whitelist: Option<Vec<IntentsAccount>>,
    /// Limit of sale tokens sold in the phase.
    pub phase_sale_limit: Option<u128>,
    /// Minimum of sale tokens an account has to buy in the phase.
    pub min_limit_per_account: Option<u128>,
    /// Maximum of sale tokens an account may buy in the phase.
    pub max_limit_per_account: Option<u128>,
    /// The phase that receives the unsold limit of this phase; the next phase when absent.
    pub remaining_go_to_phase_id: Option<u16>,
}

/// The discount phases of a sale.
#[derive(Debug, Clone, PartialEq, Eq)]
pub struct DiscountParams {
    pub phases: Vec<DiscountPhase>,
    /// Start of the public (non-discounted) sale; the public sale is always open when absent.
    pub public_sale_start_time: Option<u64>,
}

/// How a deposit is split between discount phases, the public sale and a refund.
#[derive(Debug, Clone, PartialEq, Eq)]
pub enum DepositDistribution {
    WithDiscount { phase_weights: Vec<(u16, u128)>, public_sale_weight: u128, refund: u128 },
    WithoutDiscount(u128),
    Refund(u128),
}

/// The abstract form of a deposit distribution.
pub enum DistributionView {
    WithDiscount { phase_weights: Seq<(u16, u128)>, public_sale_weight: u128, refund: u128 },
    WithoutDiscount(u128),
    Refund(u128),
}

impl View for DepositDistribution {
    type V = DistributionView;

    open spec fn view(&self) -> DistributionView {
        match self {
            DepositDistribution::WithDiscount { phase_weights, public_sale_weight, refund } =>
                DistributionView::WithDiscount {
                phase_weights: phase_weights@,
                public_sale_weight: *public_sale_weight,
                refund: *refund,
            },
            DepositDistribution::WithoutDiscount(w) => DistributionView::WithoutDiscount(*w),
            DepositDistribution::Refund(r) => DistributionView::Refund(*r),
        }
    }
}

/// The sum of the weights of a list of phase weights.
pub open spec fn weights_total(phase_weights: Seq<(u16, u128)>) -> nat
    decreases phase_weights.len(),
{
    if phase_weights.len() == 0 {
        0
    } else {
        weights_total(phase_weights.drop_last()) + phase_weights.last().1 as nat
    }
}

/// `x` capped at `u128::MAX`.
pub open spec fn saturate(x: int) -> u128 {
    if x > u128::MAX {
        u128::MAX
    } else {
        x as u128
    }
}

impl DepositDistribution {
    /// The total weight of the discounted phases and the public sale, saturating at `u128::MAX`.
    pub fn discount_weight_sum(phase_weights: &Vec<(u16, u128)>, public_sale_weight: u128) -> (r:
        u128)
        ensures
            r == saturate(weights_total(phase_weights@) + public_sale_weight),
    {
        let mut acc: u128 = 0;
        let mut i: usize = 0;
        while i < phase_weights.len()
            invariant
                i <= phase_weights.len(),
                acc == saturate(weights_total(phase_weights@.subrange(0, i as int)) as int),
            decreases phase_weights.len() - i,
        {
            assert(phase_weights@.subrange(0, i + 1).drop_last() =~= phase_weights@.subrange(
                0,
                i as int,
            ));
            acc = acc.saturating_add(phase_weights[i].1);
            i = i + 1;
        }
        assert(phase_weights@.subrange(0, i as int) =~= phase_weights@);
        acc.saturating_add(public_sale_weight)
    }
}

/// The configuration of a launchpad.
#[derive(Debug, Clone, PartialEq, Eq)]
pub struct LaunchpadConfig {
    pub deposit_token: DepositToken,
    pub min_deposit: u128,
    pub sale_token_account_id: String,
    pub intents_account_id: String,
    pub start_date: u64,
    pub end_date: u64,
    pub soft_cap: u128,
    pub mechanics: Mechanics,
    pub sale_amount: u128,
    pub total_sale_amount: u128,
    pub vesting_schedule: Option<VestingSchedule>,
    pub distribution_proportions: DistributionProportions,
    pub discounts: Option<DiscountParams>,
    pub tge: Option<u64>,
}

/// Progress of the distribution of the deposited tokens.
#[derive(Debug, Clone, Copy, PartialEq, Eq, Default)]
pub struct DepositsDistribution {
    pub solver_amount: u128,
    pub fee_amount: u128,
    pub is_ongoing: bool,
}

/// Unsold sale tokens withdrawn by the admin.
#[derive(Debug, Clone, Copy, PartialEq, Eq, Default)]
pub struct WithdrawnUnsoldTokens {
    pub amount: u128,
    pub is_ongoing: bool,
}

} // verus!
