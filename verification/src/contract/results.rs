//! Reading the results of calls to other contracts: how many tokens a transfer used, and
//! whether a key check succeeded. The results are JSON, decoded with near-sdk's `serde_json`.
use near_sdk::json_types::U128;
use vstd::prelude::*;

verus! {

/// Maximum byte length of a NEP-141 transfer result that is read: a JSON-quoted `u128` has at
/// most 39 digits between its two quotes.
pub const MAX_FT_RESULT_LENGTH: usize = 41;

/// Maximum byte length of a NEP-245 transfer result that is read: a one-element JSON array of
/// a quoted `u128`.
pub const MAX_MT_RESULT_LENGTH: usize = 43;

/// The outcome of a call to another contract.
#[derive(Debug, Clone, PartialEq, Eq)]
pub enum PromiseOutcome {
    /// The call succeeded and returned these bytes.
    Successful(Vec<u8>),
    /// The call failed.
    Failed,
}

/// The amount that `serde_json` decodes from `bytes` as near-sdk's `U128`, if they decode.
pub uninterp spec fn json_u128(bytes: Seq<u8>) -> Option<u128>;

/// The amounts that `serde_json` decodes from `bytes` as a `Vec` of near-sdk's `U128`, if
/// they decode.
pub uninterp spec fn json_u128_list(bytes: Seq<u8>) -> Option<Seq<u128>>;

/// The boolean that `serde_json` decodes from `bytes`, if they decode.
pub uninterp spec fn json_bool(bytes: Seq<u8>) -> Option<bool>;

/// Decodes `bytes` with `near_sdk::serde_json::from_slice` as a near-sdk `U128`. The
/// contract only names the result: decoding depends on the bytes alone.
#[verifier::external_body]
fn parse_json_u128(bytes: &Vec<u8>) -> (r: Option<u128>)
    ensures
        r == json_u128(bytes@),
{
    near_sdk::serde_json::from_slice::<U128>(bytes).ok().map(|v| v.0)
}

/// Decodes `bytes` with `near_sdk::serde_json::from_slice` as a `Vec` of near-sdk `U128`.
/// The contract only names the result: decoding depends on the bytes alone.
#[verifier::external_body]
fn parse_json_u128_list(bytes: &Vec<u8>) -> (r: Option<Vec<u128>>)
    ensures
        match r {
            Some(v) => json_u128_list(bytes@) == Some(v@),
            None => json_u128_list(bytes@) is None,
        },
{
    near_sdk::serde_json::from_slice::<Vec<U128>>(bytes).ok().map(
        |v| v.into_iter().map(|x| x.0).collect(),
    )
}

/// Decodes `bytes` with `near_sdk::serde_json::from_slice` as a `bool`. The contract only
/// names the result: decoding depends on the bytes alone.
#[verifier::external_body]
fn parse_json_bool(bytes: &Vec<u8>) -> (r: Option<bool>)
    ensures
        r == json_bool(bytes@),
{
    near_sdk::serde_json::from_slice::<bool>(bytes).ok()
}

/// The amount that a NEP-141 transfer of `amount` reports as used: nothing when the call
/// failed; all of it when the result is longer than a `u128` can be or does not decode, since
/// the transfer may have been delivered.
pub open spec fn ft_used(outcome: PromiseOutcome, amount: u128) -> u128 {
    match outcome {
        PromiseOutcome::Failed => 0,
        PromiseOutcome::Successful(bytes) => if bytes@.len() > MAX_FT_RESULT_LENGTH {
            amount
        } else {
            match json_u128(bytes@) {
                Some(v) => v,
                None => amount,
            }
        },
    }
}

/// The amount that a NEP-245 transfer of `amount` reports as used: nothing when the call
/// failed; all of it when the result is too long, does not decode, or does not hold exactly
/// one amount.
pub open spec fn mt_used(outcome: PromiseOutcome, amount: u128) -> u128 {
    match outcome {
        PromiseOutcome::Failed => 0,
        PromiseOutcome::Successful(bytes) => if bytes@.len() > MAX_MT_RESULT_LENGTH {
            amount
        } else {
            match json_u128_list(bytes@) {
                Some(list) => if list.len() == 1 {
                    list[0]
                } else {
                    amount
                },
                None => amount,
            }
        },
    }
}

/// Returns the amount that a NEP-141 transfer of `amount` used, by its outcome.
pub fn read_ft_result(outcome: &PromiseOutcome, amount: u128) -> (r: u128)
    ensures
        r == ft_used(*outcome, amount),
{
    match outcome {
        PromiseOutcome::Successful(bytes) => {
            if bytes.len() > MAX_FT_RESULT_LENGTH {
                // Too long to be an amount: treated as fully used.
                amount
            } else {
                match parse_json_u128(bytes) {
                    Some(v) => v,
                    None => amount,
                }
            }
        },
        PromiseOutcome::Failed => 0,
    }
}

/// Returns the amount that a NEP-245 transfer of `amount` used, by its outcome.
pub fn read_mt_result(outcome: &PromiseOutcome, amount: u128) -> (r: u128)
    ensures
        r == mt_used(*outcome, amount),
{
    match outcome {
        PromiseOutcome::Successful(bytes) => {
            if bytes.len() > MAX_MT_RESULT_LENGTH {
                amount
            } else {
                match parse_json_u128_list(bytes) {
                    Some(list) => if list.len() == 1 {
                        list[0]
                    } else {
                        amount
                    },
                    None => amount,
                }
            }
        },
        PromiseOutcome::Failed => 0,
    }
}

/// The amount a successful NEP-141 transfer reports; zero when it failed or does not decode.
pub open spec fn ft_value(outcome: PromiseOutcome) -> u128 {
    match outcome {
        PromiseOutcome::Successful(bytes) => match json_u128(bytes@) {
            Some(v) => v,
            None => 0,
        },
        PromiseOutcome::Failed => 0,
    }
}

/// The first amount a successful NEP-245 transfer reports; zero when it failed, does not
/// decode, or is empty.
pub open spec fn mt_value(outcome: PromiseOutcome) -> u128 {
    match outcome {
        PromiseOutcome::Successful(bytes) => match json_u128_list(bytes@) {
            Some(list) => if list.len() > 0 {
                list[0]
            } else {
                0
            },
            None => 0,
        },
        PromiseOutcome::Failed => 0,
    }
}

/// Returns the amount a NEP-141 transfer reports, zero when it failed or does not decode.
pub fn read_ft_value(outcome: &PromiseOutcome) -> (r: u128)
    ensures
        r == ft_value(*outcome),
{
    match outcome {
        PromiseOutcome::Successful(bytes) => match parse_json_u128(bytes) {
            Some(v) => v,
            None => 0,
        },
        PromiseOutcome::Failed => 0,
    }
}

/// Returns the first amount a NEP-245 transfer reports, zero when it failed, does not decode
/// or is empty.
pub fn read_mt_value(outcome: &PromiseOutcome) -> (r: u128)
    ensures
        r == mt_value(*outcome),
{
    match outcome {
        PromiseOutcome::Successful(bytes) => match parse_json_u128_list(bytes) {
            Some(list) => if list.len() > 0 {
                list[0]
            } else {
                0
            },
            None => 0,
        },
        PromiseOutcome::Failed => 0,
    }
}

/// The amount a successful transfer reports, `default` when it does not decode, and `None`
/// when the call failed.
pub open spec fn reported_amount(outcome: PromiseOutcome, default: u128) -> Option<u128> {
    match outcome {
        PromiseOutcome::Successful(bytes) => match json_u128(bytes@) {
            Some(v) => Some(v),
            None => Some(default),
        },
        PromiseOutcome::Failed => None,
    }
}

/// Returns the amount a successful transfer reports (`default` when it does not decode), or
/// `None` when the call failed.
pub fn read_reported_amount(outcome: &PromiseOutcome, default: u128) -> (r: Option<u128>)
    ensures
        r == reported_amount(*outcome, default),
{
    match outcome {
        PromiseOutcome::Successful(bytes) => match parse_json_u128(bytes) {
            Some(v) => Some(v),
            None => Some(default),
        },
        PromiseOutcome::Failed => None,
    }
}

/// A key check succeeded: the call succeeded and returned `true`.
pub open spec fn check_passed(outcome: PromiseOutcome) -> bool {
    match outcome {
        PromiseOutcome::Successful(bytes) => json_bool(bytes@) == Some(true),
        PromiseOutcome::Failed => false,
    }
}

/// Returns whether a key check succeeded.
pub fn read_check(outcome: &PromiseOutcome) -> (r: bool)
    ensures
        r == check_passed(*outcome),
{
    match outcome {
        PromiseOutcome::Successful(bytes) => match parse_json_bool(bytes) {
            Some(b) => b,
            None => false,
        },
        PromiseOutcome::Failed => false,
    }
}

} // verus!
