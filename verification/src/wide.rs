//! Wide (256-bit) intermediate arithmetic for `u128` amounts, backed by alloy's `U256`.
use alloy_primitives::ruint::aliases::U256;
use vstd::prelude::*;

verus! {

/// 2^64.
pub open spec fn pow64() -> nat {
    0x1_0000_0000_0000_0000
}

/// The value of a little-endian array of four 64-bit limbs.
pub open spec fn limbs_value(l: [u64; 4]) -> nat {
    l[0] as nat + l[1] as nat * pow64() + l[2] as nat * (pow64() * pow64()) + l[3] as nat * (
    pow64() * pow64() * pow64())
}

/// Multiplies two `u128` values with alloy's `U256::checked_mul` and returns the limbs of the
/// product. The product of two 128-bit values always fits in 256 bits, so the call never
/// reports an overflow; the contract states that the limbs hold the exact product.
#[verifier::external_body]
fn u256_checked_mul(a: u128, b: u128) -> (r: Option<[u64; 4]>)
    ensures
        r is Some,
        limbs_value(r.unwrap()) == a * b,
{
    match U256::from(a).checked_mul(U256::from(b)) {
        Some(p) => Some(p.into_limbs()),
        None => None,
    }
}

/// Divides a 256-bit value (given by its limbs) by a non-zero `u128` with alloy's `U256`
/// division, which rounds down. The division panics on a zero divisor, which `requires`
/// excludes.
#[verifier::external_body]
fn u256_div(n: [u64; 4], d: u128) -> (r: [u64; 4])
    requires
        d > 0,
    ensures
        limbs_value(r) == limbs_value(n) / (d as nat),
{
    (U256::from_limbs(n) / U256::from(d)).into_limbs()
}

/// Narrows a 256-bit value to `u128`, failing when it does not fit.
pub fn to_u128(l: [u64; 4]) -> (r: Result<u128, &'static str>)
    ensures
        limbs_value(l) <= u128::MAX ==> r == Ok::<u128, &'static str>(limbs_value(l) as u128),
        limbs_value(l) > u128::MAX ==> r == Err::<u128, &'static str>(
            "Value is too large to fit in u128",
        ),
{
    if l[2] != 0 || l[3] != 0 {
        assert(limbs_value(l) >= pow64() * pow64()) by (nonlinear_arith)
            requires
                l[2] != 0 || l[3] != 0,
                limbs_value(l) == l[0] as nat + l[1] as nat * pow64() + l[2] as nat * (pow64()
                    * pow64()) + l[3] as nat * (pow64() * pow64() * pow64()),
                pow64() == 0x1_0000_0000_0000_0000,
        ;
        return Err("Value is too large to fit in u128");
    }
    let r: u128 = (l[1] as u128) * 0x1_0000_0000_0000_0000u128 + (l[0] as u128);
    Ok(r)
}

} // verus!

verus! {

/// `a * b / c` rounded down, or the error reported when it does not fit in `u128`.
pub open spec fn spec_mul_div(a: u128, b: u128, c: u128) -> Result<u128, &'static str> {
    if (a as nat * b as nat) / (c as nat) <= u128::MAX {
        Ok(((a as nat * b as nat) / (c as nat)) as u128)
    } else {
        Err("Value is too large to fit in u128")
    }
}

/// Computes `a * b / c` (rounded down) through a 256-bit intermediate product.
pub fn mul_div(a: u128, b: u128, c: u128) -> (r: Result<u128, &'static str>)
    requires
        c > 0,
    ensures
        r == spec_mul_div(a, b, c),
{
    let product = match u256_checked_mul(a, b) {
        Some(p) => p,
        None => return Err("Multiplication overflow"),
    };
    let quotient = u256_div(product, c);
    to_u128(quotient)
}

} // verus!
