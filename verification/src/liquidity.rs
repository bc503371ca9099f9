//! Liquidity math: what a deposit takes and mints, and what a withdrawal
//! pays, from the reserves and the share supply of a pair.
//!
//! All quotients are floored, so a depositor is never credited with more
//! shares than the deposit is worth and a withdrawer is never paid more than
//! the shares are worth.

use vstd::prelude::*;
use crate::error::DexError;
use crate::math::{isqrt, lemma_product_fits, lemma_root_fits, mul_div, sqrt, to_amount};

verus! {

/// Shares that the first deposit of a pair locks for good.
pub const MINIMUM_LIQUIDITY: u64 = 1000;

/// What a deposit takes from the depositor and mints to them.
#[derive(Clone, Copy, Debug, PartialEq, Eq, Structural)]
pub struct Deposit {
    /// Amount of the first asset taken.
    pub amount0: u64,
    /// Amount of the second asset taken.
    pub amount1: u64,
    /// Shares minted to the depositor.
    pub liquidity: u64,
}

/// What a withdrawal pays to the withdrawer and burns from them.
#[derive(Clone, Copy, Debug, PartialEq, Eq, Structural)]
pub struct Withdrawal {
    /// Amount of the first asset paid out.
    pub amount0: u64,
    /// Amount of the second asset paid out.
    pub amount1: u64,
    /// Shares burned.
    pub liquidity: u64,
}

/// The first deposit of a pair takes both desired amounts in full and mints
/// the floor of the square root of their product, less the locked minimum.
pub open spec fn initial_deposit(desired0: nat, desired1: nat) -> Result<Deposit, DexError> {
    if desired0 > u64::MAX || desired1 > u64::MAX {
        Err(DexError::AmountOverflow)
    } else if isqrt(desired0 * desired1) <= MINIMUM_LIQUIDITY {
        Err(DexError::InsufficientLiquidityMinted)
    } else {
        Ok(
            Deposit {
                amount0: desired0 as u64,
                amount1: desired1 as u64,
                liquidity: (isqrt(desired0 * desired1) - MINIMUM_LIQUIDITY) as u64,
            },
        )
    }
}

/// One side of a later deposit: `binding` of one asset is taken in full,
/// `other` of the second asset goes with it, and the shares minted are
/// `binding * supply / reserve`, where `reserve` is that of the binding asset.
/// The result is `(binding, other, shares)`.
pub open spec fn bound_deposit(
    binding: nat,
    other: nat,
    reserve: nat,
    supply: nat,
    other_min: nat,
) -> Result<(u64, u64, u64), DexError> {
    if other < other_min {
        Err(DexError::InsufficientAmount)
    } else if binding * supply > u128::MAX {
        Err(DexError::ArithmeticOverflow)
    } else if reserve == 0 {
        Err(DexError::DivisionByZero)
    } else if binding > u64::MAX || other > u64::MAX || binding * supply / reserve > u64::MAX {
        Err(DexError::AmountOverflow)
    } else {
        Ok((binding as u64, other as u64, (binding * supply / reserve) as u64))
    }
}

/// A deposit into a pair that holds reserves. The amount of the second asset
/// that matches `desired0` at the current ratio is
/// `desired0 * reserve1 / reserve0`; where the depositor offers that much,
/// the first asset is binding, otherwise the second one is.
pub open spec fn proportional_deposit(
    reserve0: nat,
    reserve1: nat,
    supply: nat,
    desired0: nat,
    desired1: nat,
    min0: nat,
    min1: nat,
) -> Result<Deposit, DexError> {
    if desired0 * reserve1 > u128::MAX {
        Err(DexError::ArithmeticOverflow)
    } else if reserve0 == 0 {
        Err(DexError::DivisionByZero)
    } else if desired0 * reserve1 / reserve0 <= desired1 {
        match bound_deposit(desired0, desired0 * reserve1 / reserve0, reserve0, supply, min1) {
            Ok((amount0, amount1, liquidity)) => Ok(Deposit { amount0, amount1, liquidity }),
            Err(e) => Err(e),
        }
    } else if desired1 * reserve0 > u128::MAX {
        Err(DexError::ArithmeticOverflow)
    } else {
        match bound_deposit(desired1, desired1 * reserve0 / reserve1, reserve1, supply, min0) {
            Ok((amount1, amount0, liquidity)) => Ok(Deposit { amount0, amount1, liquidity }),
            Err(e) => Err(e),
        }
    }
}

/// What a deposit takes and mints: that of the first deposit where both
/// reserves are zero, that of a proportional one otherwise; in both cases
/// each amount taken must reach the depositor's minimum.
pub open spec fn deposit_quote(
    reserve0: nat,
    reserve1: nat,
    supply: nat,
    desired0: nat,
    desired1: nat,
    min0: nat,
    min1: nat,
) -> Result<Deposit, DexError> {
    let computed = if reserve0 == 0 && reserve1 == 0 {
        initial_deposit(desired0, desired1)
    } else {
        proportional_deposit(reserve0, reserve1, supply, desired0, desired1, min0, min1)
    };
    match computed {
        Ok(deposit) => if deposit.amount0 >= min0 && deposit.amount1 >= min1 {
            Ok(deposit)
        } else {
            Err(DexError::InsufficientAmount)
        },
        Err(e) => Err(e),
    }
}

/// What redeeming `liquidity` shares pays: the same fraction of each reserve
/// as `liquidity` is of the supply, floored.
pub open spec fn withdrawal_quote(
    reserve0: nat,
    reserve1: nat,
    supply: nat,
    liquidity: nat,
    min0: nat,
    min1: nat,
) -> Result<Withdrawal, DexError> {
    if liquidity > u64::MAX {
        Err(DexError::AmountOverflow)
    } else if supply == 0 {
        Err(DexError::DivisionByZero)
    } else if liquidity * reserve0 / supply < min0 || liquidity * reserve1 / supply < min1 {
        Err(DexError::InsufficientAmount)
    } else if liquidity * reserve0 / supply > u64::MAX || liquidity * reserve1 / supply
        > u64::MAX {
        Err(DexError::AmountOverflow)
    } else {
        Ok(
            Withdrawal {
                amount0: (liquidity * reserve0 / supply) as u64,
                amount1: (liquidity * reserve1 / supply) as u64,
                liquidity: liquidity as u64,
            },
        )
    }
}

/// Where the amount of the second asset that matches `desired0` exceeds
/// `desired1`, the second reserve is not empty, and the amount of the first
/// asset that matches `desired1` is at most `desired0`.
pub proof fn lemma_second_asset_binds(reserve0: nat, reserve1: nat, desired0: nat, desired1: nat)
    requires
        reserve0 > 0,
        desired0 * reserve1 / reserve0 > desired1,
    ensures
        reserve1 > 0,
        desired1 * reserve0 / reserve1 <= desired0,
{
    assert(desired0 * reserve1 >= (desired1 + 1) * reserve0) by (nonlinear_arith)
        requires
            desired0 * reserve1 / reserve0 >= desired1 + 1,
            reserve0 > 0,
    ;
    assert(reserve1 > 0) by (nonlinear_arith)
        requires
            desired0 * reserve1 >= (desired1 + 1) * reserve0,
            reserve0 > 0,
    ;
    assert(desired1 * reserve0 / reserve1 <= desired0) by (nonlinear_arith)
        requires
            desired0 * reserve1 >= (desired1 + 1) * reserve0,
            reserve1 > 0,
    ;
}

/// The share of a reserve that `liquidity` of `supply` shares stands for,
/// floored, is at most the reserve; it is all of the reserve for all of the
/// supply, and less than a reserve that is not empty for less than the
/// supply.
pub proof fn lemma_share_of_reserve(liquidity: nat, reserve: nat, supply: nat)
    requires
        supply > 0,
        liquidity <= supply,
    ensures
        liquidity * reserve / supply <= reserve,
        liquidity == supply ==> liquidity * reserve / supply == reserve,
        liquidity < supply && reserve > 0 ==> liquidity * reserve / supply < reserve,
{
    assert(liquidity * reserve / supply <= reserve) by (nonlinear_arith)
        requires
            liquidity <= supply,
            supply > 0,
    ;
    if liquidity == supply {
        assert(liquidity * reserve / supply == reserve) by (nonlinear_arith)
            requires
                liquidity == supply,
                supply > 0,
        ;
    } else if reserve > 0 {
        assert(liquidity * reserve / supply < reserve) by (nonlinear_arith)
            requires
                liquidity < supply,
                reserve > 0,
        ;
    }
}

/// Computes [`initial_deposit`].
pub fn quote_initial_deposit(desired0: u128, desired1: u128) -> (quote: Result<Deposit, DexError>)
    ensures
        quote == initial_deposit(desired0 as nat, desired1 as nat),
{
    let amount0 = to_amount(desired0)?;
    let amount1 = to_amount(desired1)?;
    proof {
        lemma_product_fits(amount0 as nat, amount1 as nat);
        lemma_root_fits((amount0 * amount1) as nat);
    }
    let root = sqrt((amount0 as u128) * (amount1 as u128)) as u64;
    if root <= MINIMUM_LIQUIDITY {
        return Err(DexError::InsufficientLiquidityMinted);
    }
    Ok(Deposit { amount0, amount1, liquidity: root - MINIMUM_LIQUIDITY })
}

/// Computes [`bound_deposit`].
pub fn quote_bound_deposit(
    binding: u128,
    other: u128,
    reserve: u64,
    supply: u64,
    other_min: u128,
) -> (quote: Result<(u64, u64, u64), DexError>)
    ensures
        quote == bound_deposit(
            binding as nat,
            other as nat,
            reserve as nat,
            supply as nat,
            other_min as nat,
        ),
{
    if other < other_min {
        return Err(DexError::InsufficientAmount);
    }
    let liquidity = mul_div(binding, supply as u128, reserve as u128)?;
    let binding = to_amount(binding)?;
    let other = to_amount(other)?;
    let liquidity = to_amount(liquidity)?;
    Ok((binding, other, liquidity))
}

/// Computes [`proportional_deposit`].
pub fn quote_proportional_deposit(
    reserve0: u64,
    reserve1: u64,
    supply: u64,
    desired0: u128,
    desired1: u128,
    min0: u128,
    min1: u128,
) -> (quote: Result<Deposit, DexError>)
    ensures
        quote == proportional_deposit(
            reserve0 as nat,
            reserve1 as nat,
            supply as nat,
            desired0 as nat,
            desired1 as nat,
            min0 as nat,
            min1 as nat,
        ),
{
    let optimal1 = mul_div(desired0, reserve1 as u128, reserve0 as u128)?;
    if optimal1 <= desired1 {
        let (amount0, amount1, liquidity) = quote_bound_deposit(
            desired0,
            optimal1,
            reserve0,
            supply,
            min1,
        )?;
        Ok(Deposit { amount0, amount1, liquidity })
    } else {
        proof {
            lemma_second_asset_binds(
                reserve0 as nat,
                reserve1 as nat,
                desired0 as nat,
                desired1 as nat,
            );
        }
        let optimal0 = mul_div(desired1, reserve0 as u128, reserve1 as u128)?;
        let (amount1, amount0, liquidity) = quote_bound_deposit(
            desired1,
            optimal0,
            reserve1,
            supply,
            min0,
        )?;
        Ok(Deposit { amount0, amount1, liquidity })
    }
}

/// Computes [`deposit_quote`].
pub fn quote_deposit(
    reserve0: u64,
    reserve1: u64,
    supply: u64,
    desired0: u128,
    desired1: u128,
    min0: u128,
    min1: u128,
) -> (quote: Result<Deposit, DexError>)
    ensures
        quote == deposit_quote(
            reserve0 as nat,
            reserve1 as nat,
            supply as nat,
            desired0 as nat,
            desired1 as nat,
            min0 as nat,
            min1 as nat,
        ),
{
    let deposit = if reserve0 == 0 && reserve1 == 0 {
        quote_initial_deposit(desired0, desired1)?
    } else {
        quote_proportional_deposit(reserve0, reserve1, supply, desired0, desired1, min0, min1)?
    };
    if deposit.amount0 as u128 >= min0 && deposit.amount1 as u128 >= min1 {
        Ok(deposit)
    } else {
        Err(DexError::InsufficientAmount)
    }
}

/// Computes [`withdrawal_quote`].
pub fn quote_withdrawal(
    reserve0: u64,
    reserve1: u64,
    supply: u64,
    liquidity: u128,
    min0: u128,
    min1: u128,
) -> (quote: Result<Withdrawal, DexError>)
    ensures
        quote == withdrawal_quote(
            reserve0 as nat,
            reserve1 as nat,
            supply as nat,
            liquidity as nat,
            min0 as nat,
            min1 as nat,
        ),
{
    let shares = to_amount(liquidity)?;
    proof {
        lemma_product_fits(shares as nat, reserve0 as nat);
        lemma_product_fits(shares as nat, reserve1 as nat);
    }
    let amount0 = mul_div(liquidity, reserve0 as u128, supply as u128)?;
    let amount1 = mul_div(liquidity, reserve1 as u128, supply as u128)?;
    if !(amount0 >= min0 && amount1 >= min1) {
        return Err(DexError::InsufficientAmount);
    }
    let amount0 = to_amount(amount0)?;
    let amount1 = to_amount(amount1)?;
    Ok(Withdrawal { amount0, amount1, liquidity: shares })
}

} // verus!
