//! Integer arithmetic: the floor square root, and products, quotients and
//! narrowings that report what does not fit instead of wrapping.

use vstd::prelude::*;
use crate::error::DexError;

verus! {

/// `root` is the floor of the square root of `value`.
pub open spec fn is_floor_sqrt(value: nat, root: nat) -> bool {
    root * root <= value < (root + 1) * (root + 1)
}

/// The largest integer whose square does not exceed `value`.
pub open spec fn isqrt(value: nat) -> nat {
    choose|root: nat| is_floor_sqrt(value, root)
}

/// At most one number is the floor square root of `value`.
pub proof fn lemma_floor_sqrt_unique(value: nat, a: nat, b: nat)
    requires
        is_floor_sqrt(value, a),
        is_floor_sqrt(value, b),
    ensures
        a == b,
{
    if a < b {
        assert((a + 1) * (a + 1) <= b * b) by (nonlinear_arith)
            requires
                a + 1 <= b,
        ;
    } else if b < a {
        assert((b + 1) * (b + 1) <= a * a) by (nonlinear_arith)
            requires
                b + 1 <= a,
        ;
    }
}

/// Every number has a floor square root.
proof fn lemma_floor_sqrt_exists(value: nat) -> (root: nat)
    ensures
        is_floor_sqrt(value, root),
    decreases value,
{
    if value == 0 {
        assert(is_floor_sqrt(0, 0)) by (nonlinear_arith);
        0
    } else {
        let below = lemma_floor_sqrt_exists((value - 1) as nat);
        let next = below + 1;
        if next * next <= value {
            assert(value < (next + 1) * (next + 1)) by (nonlinear_arith)
                requires
                    value - 1 < (below + 1) * (below + 1),
                    next == below + 1,
            ;
            next
        } else {
            assert(is_floor_sqrt(value, below)) by (nonlinear_arith)
                requires
                    below * below <= value - 1,
                    !(next * next <= value),
                    next == below + 1,
            ;
            below
        }
    }
}

/// `isqrt(value)` is the floor square root of `value`, and the only one.
pub proof fn lemma_isqrt(value: nat)
    ensures
        is_floor_sqrt(value, isqrt(value)),
        forall|root: nat| is_floor_sqrt(value, root) ==> root == isqrt(value),
{
    let witness = lemma_floor_sqrt_exists(value);
    assert(is_floor_sqrt(value, isqrt(value)));
    assert forall|root: nat| is_floor_sqrt(value, root) implies root == isqrt(value) by {
        lemma_floor_sqrt_unique(value, root, isqrt(value));
    }
}

/// Half of `value` is an upper bound of its square root once `value >= 2`.
proof fn lemma_half_bounds_root(value: nat, root: nat)
    requires
        value >= 2,
        is_floor_sqrt(value, root),
    ensures
        1 <= root <= value / 2,
{
    assert(root >= 1) by (nonlinear_arith)
        requires
            value >= 2,
            value < (root + 1) * (root + 1),
    ;
    if root > value / 2 {
        assert(2 * root >= value + 1);
        assert(false) by (nonlinear_arith)
            requires
                root * root <= value,
                2 * root >= value + 1,
                value >= 2,
        ;
    }
}

/// One Newton step from an upper bound of the root stays an upper bound.
proof fn lemma_newton_step(value: nat, root: nat, x: nat)
    requires
        is_floor_sqrt(value, root),
        x >= root,
        x >= 1,
    ensures
        (x + value / x) / 2 >= root,
{
    let q = value / x;
    assert(value < (q + 1) * x) by (nonlinear_arith)
        requires
            q == value / x,
            x >= 1,
    ;
    if x + q < 2 * root {
        assert((q + 1) * x <= root * root) by (nonlinear_arith)
            requires
                q + 1 <= 2 * root - x,
                x >= 1,
                x >= root,
        ;
    }
}

/// A Newton iterate that no longer decreases is the root itself.
proof fn lemma_newton_fixpoint(value: nat, root: nat, x: nat)
    requires
        is_floor_sqrt(value, root),
        x >= root,
        x >= 1,
        (x + value / x) / 2 >= x,
    ensures
        x == root,
{
    let q = value / x;
    assert(q >= x);
    assert(x * x <= value) by (nonlinear_arith)
        requires
            q == value / x,
            q >= x,
            x >= 1,
    ;
    if x > root {
        assert((root + 1) * (root + 1) <= x * x) by (nonlinear_arith)
            requires
                root + 1 <= x,
        ;
    }
}

/// The quotient met in a Newton step is small enough to add to the iterate.
proof fn lemma_newton_sum_fits(value: nat, root: nat, x: nat)
    requires
        value >= 2,
        is_floor_sqrt(value, root),
        root <= x <= value / 2,
        x >= 1,
    ensures
        x + value / x <= value + 2,
        x >= 2 ==> x + value / x <= value,
{
    if x >= 2 {
        assert(value / x <= value / 2) by (nonlinear_arith)
            requires
                x >= 2,
        ;
    } else {
        assert(value / x == value) by (nonlinear_arith)
            requires
                x == 1,
        ;
        assert(value < 4) by (nonlinear_arith)
            requires
                root <= 1,
                value < (root + 1) * (root + 1),
        ;
    }
}

/// Floor of the square root of `value`, by Newton's iteration from
/// `value / 2`.
pub fn sqrt(value: u128) -> (root: u128)
    ensures
        root == isqrt(value as nat),
        root * root <= value < (root + 1) * (root + 1),
{
    proof {
        lemma_isqrt(value as nat);
    }
    if value < 2 {
        assert(is_floor_sqrt(value as nat, value as nat)) by (nonlinear_arith)
            requires
                value < 2,
        ;
        return value;
    }
    let ghost root = isqrt(value as nat);
    proof {
        lemma_half_bounds_root(value as nat, root);
        lemma_newton_sum_fits(value as nat, root, (value / 2) as nat);
    }
    let mut x: u128 = value / 2;
    assert(x + value / x <= u128::MAX) by {
        if x >= 2 {
        } else {
            assert(value < 4);
        }
    }
    let mut y: u128 = (x + value / x) / 2;
    while y < x
        invariant
            value >= 2,
            root == isqrt(value as nat),
            is_floor_sqrt(value as nat, root),
            1 <= root <= x,
            x <= value / 2,
            y == (x + value / x) / 2,
        decreases x,
    {
        proof {
            lemma_newton_step(value as nat, root, x as nat);
        }
        x = y;
        proof {
            lemma_newton_sum_fits(value as nat, root, x as nat);
            if x < 2 {
                assert(value < 4) by (nonlinear_arith)
                    requires
                        root <= 1,
                        value < (root + 1) * (root + 1),
                ;
            }
        }
        y = (x + value / x) / 2;
    }
    proof {
        lemma_newton_fixpoint(value as nat, root, x as nat);
    }
    x
}

/// The product of two 64-bit amounts fits 128 bits.
pub proof fn lemma_product_fits(a: nat, b: nat)
    requires
        a <= u64::MAX,
        b <= u64::MAX,
    ensures
        a * b <= u128::MAX,
{
    assert(a * b <= 0xffff_ffff_ffff_ffff * 0xffff_ffff_ffff_ffff) by (nonlinear_arith)
        requires
            a <= 0xffff_ffff_ffff_ffff,
            b <= 0xffff_ffff_ffff_ffff,
    ;
}

/// The square root of a 128-bit number fits 64 bits.
pub proof fn lemma_root_fits(value: nat)
    requires
        value <= u128::MAX,
    ensures
        isqrt(value) <= u64::MAX,
{
    lemma_isqrt(value);
    let root = isqrt(value);
    if root > u64::MAX {
        assert(root * root >= 0x1_0000_0000_0000_0000 * 0x1_0000_0000_0000_0000)
            by (nonlinear_arith)
            requires
                root >= 0x1_0000_0000_0000_0000,
        ;
    }
}

/// Narrows a quantity to the 64 bits of a token amount.
pub fn to_amount(value: u128) -> (amount: Result<u64, DexError>)
    ensures
        value <= u64::MAX ==> amount == Ok::<u64, DexError>(value as u64),
        value > u64::MAX ==> amount == Err::<u64, DexError>(DexError::AmountOverflow),
{
    if value <= u64::MAX as u128 {
        Ok(value as u64)
    } else {
        Err(DexError::AmountOverflow)
    }
}

/// `a * b / c` in 128 bits, floored.
pub fn mul_div(a: u128, b: u128, c: u128) -> (quotient: Result<u128, DexError>)
    ensures
        a * b > u128::MAX ==> quotient == Err::<u128, DexError>(DexError::ArithmeticOverflow),
        a * b <= u128::MAX && c == 0 ==> quotient == Err::<u128, DexError>(
            DexError::DivisionByZero,
        ),
        a * b <= u128::MAX && c != 0 ==> quotient == Ok::<u128, DexError>((a * b / (c as int)) as u128),
{
    match a.checked_mul(b) {
        None => Err(DexError::ArithmeticOverflow),
        Some(product) => match product.checked_div(c) {
            None => Err(DexError::DivisionByZero),
            Some(quotient) => Ok(quotient),
        },
    }
}

} // verus!
