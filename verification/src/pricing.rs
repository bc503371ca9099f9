//! Swap math: the output of a trade under the constant-product rule with a
//! fee of 0.3% taken from the input.

use vstd::prelude::*;
use crate::error::DexError;
use crate::math::to_amount;

verus! {

/// Thousandths of the input that count towards the price.
pub const FEE_NUMERATOR: u128 = 997;

/// The scale of [`FEE_NUMERATOR`].
pub const FEE_DENOMINATOR: u128 = 1000;

/// The input of a swap after the fee, scaled by [`FEE_DENOMINATOR`].
pub open spec fn amount_in_with_fee(amount_in: nat) -> nat {
    amount_in * FEE_NUMERATOR as nat
}

/// The output that the constant-product rule pays for `amount_in`:
/// `amount_in_with_fee * reserve_out / (reserve_in * 1000 + amount_in_with_fee)`,
/// floored.
pub open spec fn amount_out(reserve_in: nat, reserve_out: nat, amount_in: nat) -> nat {
    amount_in_with_fee(amount_in) * reserve_out / (reserve_in * FEE_DENOMINATOR as nat
        + amount_in_with_fee(amount_in))
}

/// What a swap of `amount_in` pays, or why it is refused.
pub open spec fn swap_quote(reserve_in: nat, reserve_out: nat, amount_in: nat, min_out: nat)
    -> Result<u64, DexError> {
    if amount_in > u64::MAX {
        Err(DexError::AmountOverflow)
    } else if amount_in_with_fee(amount_in) * reserve_out > u128::MAX {
        Err(DexError::ArithmeticOverflow)
    } else if reserve_in == 0 && amount_in == 0 {
        Err(DexError::DivisionByZero)
    } else if amount_out(reserve_in, reserve_out, amount_in) < min_out || amount_out(
        reserve_in,
        reserve_out,
        amount_in,
    ) == 0 {
        Err(DexError::InsufficientOutputAmount)
    } else {
        Ok(amount_out(reserve_in, reserve_out, amount_in) as u64)
    }
}

/// A swap never pays more than the reserve it is paid from, and pays less
/// than all of it while the reserve of the input asset is not empty.
pub proof fn lemma_output_bounded(reserve_in: nat, reserve_out: nat, amount_in: nat)
    requires
        reserve_in > 0 || amount_in > 0,
    ensures
        amount_out(reserve_in, reserve_out, amount_in) <= reserve_out,
        reserve_in > 0 && reserve_out > 0 ==> amount_out(reserve_in, reserve_out, amount_in)
            < reserve_out,
        amount_out(reserve_in, reserve_out, amount_in) * (reserve_in * FEE_DENOMINATOR as nat
            + amount_in_with_fee(amount_in)) <= amount_in_with_fee(amount_in) * reserve_out,
{
    let fee_in = amount_in_with_fee(amount_in);
    let divisor = reserve_in * FEE_DENOMINATOR as nat + fee_in;
    let out = fee_in * reserve_out / divisor;
    assert(out == amount_out(reserve_in, reserve_out, amount_in));
    assert(out * divisor <= fee_in * reserve_out) by (nonlinear_arith)
        requires
            divisor > 0,
            out == fee_in * reserve_out / divisor,
    ;
    assert(out <= reserve_out) by (nonlinear_arith)
        requires
            out * divisor <= fee_in * reserve_out,
            divisor >= fee_in,
            divisor > 0,
    ;
    if reserve_in > 0 && reserve_out > 0 {
        assert(out < reserve_out) by (nonlinear_arith)
            requires
                out * divisor <= fee_in * reserve_out,
                divisor > fee_in,
                reserve_out > 0,
        ;
    }
}

/// The product of the reserves does not decrease across a swap: with
/// `out` the output paid for `amount_in`,
/// `(reserve_in + amount_in) * (reserve_out - out) >= reserve_in * reserve_out`.
pub proof fn lemma_product_monotonic(reserve_in: nat, reserve_out: nat, amount_in: nat)
    requires
        reserve_in > 0 || amount_in > 0,
    ensures
        amount_out(reserve_in, reserve_out, amount_in) <= reserve_out,
        (reserve_in + amount_in) * (reserve_out - amount_out(reserve_in, reserve_out, amount_in))
            >= reserve_in * reserve_out,
{
    lemma_output_bounded(reserve_in, reserve_out, amount_in);
    let fee_in = amount_in_with_fee(amount_in);
    let divisor = reserve_in * FEE_DENOMINATOR as nat + fee_in;
    let out = amount_out(reserve_in, reserve_out, amount_in);
    assert(out * (reserve_in + amount_in) <= amount_in * reserve_out) by (nonlinear_arith)
        requires
            out * divisor <= fee_in * reserve_out,
            divisor == reserve_in * 1000 + fee_in,
            fee_in == amount_in * 997,
    ;
    assert((reserve_in + amount_in) * (reserve_out - out) >= reserve_in * reserve_out)
        by (nonlinear_arith)
        requires
            out * (reserve_in + amount_in) <= amount_in * reserve_out,
    ;
}

/// Computes [`swap_quote`].
pub fn quote_swap(reserve_in: u64, reserve_out: u64, amount_in: u128, min_out: u128) -> (quote:
    Result<u64, DexError>)
    ensures
        quote == swap_quote(
            reserve_in as nat,
            reserve_out as nat,
            amount_in as nat,
            min_out as nat,
        ),
        quote matches Ok(out) ==> 0 < out <= reserve_out,
{
    let _ = to_amount(amount_in)?;
    let fee_in = amount_in * FEE_NUMERATOR;
    let numerator = match fee_in.checked_mul(reserve_out as u128) {
        Some(numerator) => numerator,
        None => { return Err(DexError::ArithmeticOverflow); },
    };
    let denominator = (reserve_in as u128) * FEE_DENOMINATOR + fee_in;
    let out = match numerator.checked_div(denominator) {
        Some(out) => out,
        None => { return Err(DexError::DivisionByZero); },
    };
    proof {
        lemma_output_bounded(reserve_in as nat, reserve_out as nat, amount_in as nat);
    }
    if out < min_out {
        return Err(DexError::InsufficientOutputAmount);
    }
    let out = to_amount(out)?;
    if out == 0 {
        return Err(DexError::InsufficientOutputAmount);
    }
    Ok(out)
}

} // verus!
