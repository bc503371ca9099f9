//! The two records of the exchange: the registry and the pair.

use vstd::prelude::*;
use crate::address::Address;
use crate::error::DexError;
use crate::liquidity::{
    deposit_quote, lemma_share_of_reserve, quote_deposit, quote_withdrawal, withdrawal_quote,
    Deposit, Withdrawal, MINIMUM_LIQUIDITY,
};
use crate::math::{isqrt, lemma_isqrt, lemma_product_fits};
use crate::pricing::{amount_out, lemma_product_monotonic, quote_swap, swap_quote};

verus! {

/// The registry of pairs: one per exchange.
#[derive(Clone, Copy, Debug, PartialEq, Eq)]
pub struct Factory {
    /// Who may create and configure pairs.
    pub owner: Address,
    /// Number of pairs configured so far.
    pub pair_count: u64,
    /// Where a protocol fee would go. No operation reads it.
    pub fee_to: Address,
    /// Whether a protocol fee is charged. No operation reads it.
    pub fee_on: bool,
    /// The pair configured last.
    pub last_pair: Address,
}

impl Factory {
    /// Bytes that the stored record takes, its 8-byte tag included.
    pub const LEN: usize = 8 + 32 + 8 + 32 + 1 + 32;
}

/// A market of two assets, with its reserves and its supply of shares.
#[derive(Clone, Copy, Debug, PartialEq, Eq)]
pub struct PairAccount {
    /// The registry that the pair belongs to.
    pub factory: Address,
    /// The asset with the smaller identity.
    pub token0: Address,
    /// The asset with the larger identity.
    pub token1: Address,
    /// Balance of `token0` held for the pair.
    pub reserve0: u64,
    /// Balance of `token1` held for the pair.
    pub reserve1: u64,
    /// Where `reserve0` is held.
    pub token0_account: Address,
    /// Where `reserve1` is held.
    pub token1_account: Address,
    /// The class of share tokens of the pair.
    pub lp_mint: Address,
    /// Shares outstanding, the locked minimum included.
    pub total_supply: u64,
    /// Bump of the pair's own derived address.
    pub bump: u8,
    /// Bump of the pair's derived signing authority.
    pub authority_bump: u8,
    /// Whether the pair has been configured. Never reset.
    pub is_initialized: bool,
}

impl PairAccount {
    /// Bytes that the stored record takes, its 8-byte tag included.
    pub const LEN: usize = 8 + 32 + 32 + 32 + 8 + 8 + 32 + 32 + 32 + 8 + 1 + 1 + 1;

    /// No shares are outstanding exactly when both reserves are empty.
    pub open spec fn supply_matches_reserves(self) -> bool {
        self.total_supply == 0 <==> (self.reserve0 == 0 && self.reserve1 == 0)
    }

    /// The assets are stored in canonical order, the smaller identity first.
    pub open spec fn canonical(self) -> bool {
        self.token0.precedes(self.token1)
    }

    /// The constant-product value: the product of the two reserves.
    pub open spec fn product(self) -> nat {
        (self.reserve0 * self.reserve1) as nat
    }

    /// `self` with other reserves and another supply, and nothing else
    /// changed.
    pub open spec fn with_balances(self, reserve0: u64, reserve1: u64, total_supply: u64)
        -> PairAccount {
        PairAccount { reserve0, reserve1, total_supply, ..self }
    }

    /// Shares that a deposit adds to the supply: those minted to the
    /// depositor and, on the first deposit, the locked minimum.
    pub open spec fn shares_issued(self, deposit: Deposit) -> nat {
        if self.reserve0 == 0 && self.reserve1 == 0 {
            (deposit.liquidity + MINIMUM_LIQUIDITY) as nat
        } else {
            deposit.liquidity as nat
        }
    }

    /// The pair after a deposit and what the deposit takes and mints, or why
    /// the deposit is refused.
    pub open spec fn deposit_outcome(
        self,
        desired0: nat,
        desired1: nat,
        min0: nat,
        min1: nat,
    ) -> Result<(PairAccount, Deposit), DexError> {
        if !self.is_initialized {
            Err(DexError::PairNotInitialized)
        } else {
            match deposit_quote(
                self.reserve0 as nat,
                self.reserve1 as nat,
                self.total_supply as nat,
                desired0,
                desired1,
                min0,
                min1,
            ) {
                Err(e) => Err(e),
                Ok(deposit) => if self.reserve0 + deposit.amount0 > u64::MAX || self.reserve1
                    + deposit.amount1 > u64::MAX || self.total_supply + self.shares_issued(deposit)
                    > u64::MAX {
                    Err(DexError::ArithmeticOverflow)
                } else {
                    Ok(
                        (
                            self.with_balances(
                                (self.reserve0 + deposit.amount0) as u64,
                                (self.reserve1 + deposit.amount1) as u64,
                                (self.total_supply + self.shares_issued(deposit)) as u64,
                            ),
                            deposit,
                        ),
                    )
                },
            }
        }
    }

    /// The pair after a withdrawal and what the withdrawal pays and burns, or
    /// why the withdrawal is refused.
    pub open spec fn withdrawal_outcome(self, liquidity: nat, min0: nat, min1: nat) -> Result<
        (PairAccount, Withdrawal),
        DexError,
    > {
        if !self.is_initialized {
            Err(DexError::PairNotInitialized)
        } else {
            match withdrawal_quote(
                self.reserve0 as nat,
                self.reserve1 as nat,
                self.total_supply as nat,
                liquidity,
                min0,
                min1,
            ) {
                Err(e) => Err(e),
                Ok(withdrawal) => if withdrawal.amount0 > self.reserve0 || withdrawal.amount1
                    > self.reserve1 || withdrawal.liquidity > self.total_supply {
                    Err(DexError::ArithmeticUnderflow)
                } else {
                    Ok(
                        (
                            self.with_balances(
                                (self.reserve0 - withdrawal.amount0) as u64,
                                (self.reserve1 - withdrawal.amount1) as u64,
                                (self.total_supply - withdrawal.liquidity) as u64,
                            ),
                            withdrawal,
                        ),
                    )
                },
            }
        }
    }

    /// The reserve that a swap pays into.
    pub open spec fn reserve_in(self, token0_in: bool) -> u64 {
        if token0_in {
            self.reserve0
        } else {
            self.reserve1
        }
    }

    /// The reserve that a swap is paid from.
    pub open spec fn reserve_out(self, token0_in: bool) -> u64 {
        if token0_in {
            self.reserve1
        } else {
            self.reserve0
        }
    }

    /// The pair after a swap of `amount_in` of one asset for the other and
    /// the amount paid out, or why the swap is refused.
    pub open spec fn swap_outcome(self, token0_in: bool, amount_in: nat, min_out: nat) -> Result<
        (PairAccount, u64),
        DexError,
    > {
        if !self.is_initialized {
            Err(DexError::PairNotInitialized)
        } else {
            match swap_quote(
                self.reserve_in(token0_in) as nat,
                self.reserve_out(token0_in) as nat,
                amount_in,
                min_out,
            ) {
                Err(e) => Err(e),
                Ok(out) => if self.reserve_in(token0_in) + amount_in > u64::MAX {
                    Err(DexError::ArithmeticOverflow)
                } else {
                    let reserve_in = (self.reserve_in(token0_in) + amount_in) as u64;
                    let reserve_out = (self.reserve_out(token0_in) - out) as u64;
                    if token0_in {
                        Ok((self.with_balances(reserve_in, reserve_out, self.total_supply), out))
                    } else {
                        Ok((self.with_balances(reserve_out, reserve_in, self.total_supply), out))
                    }
                },
            }
        }
    }
}

impl PairAccount {
    /// A deposit keeps the supply in step with the reserves.
    pub proof fn lemma_deposit_keeps_supply_in_step(
        self,
        desired0: nat,
        desired1: nat,
        min0: nat,
        min1: nat,
    )
        requires
            self.supply_matches_reserves(),
            self.deposit_outcome(desired0, desired1, min0, min1) is Ok,
        ensures
            self.deposit_outcome(desired0, desired1, min0, min1)->Ok_0.0.supply_matches_reserves(),
            self.deposit_outcome(desired0, desired1, min0, min1)->Ok_0.0.total_supply > 0,
    {
        if self.reserve0 == 0 && self.reserve1 == 0 {
            lemma_isqrt(desired0 * desired1);
            let root = isqrt(desired0 * desired1);
            assert(desired0 > 0) by (nonlinear_arith)
                requires
                    root * root <= desired0 * desired1,
                    root > 1000,
            ;
        }
    }

    /// A withdrawal keeps the supply in step with the reserves.
    pub proof fn lemma_withdrawal_keeps_supply_in_step(self, liquidity: nat, min0: nat, min1: nat)
        requires
            self.supply_matches_reserves(),
            self.withdrawal_outcome(liquidity, min0, min1) is Ok,
        ensures
            self.withdrawal_outcome(liquidity, min0, min1)->Ok_0.0.supply_matches_reserves(),
    {
        lemma_share_of_reserve(liquidity, self.reserve0 as nat, self.total_supply as nat);
        lemma_share_of_reserve(liquidity, self.reserve1 as nat, self.total_supply as nat);
    }

    /// A swap keeps the supply in step with the reserves and does not
    /// decrease the product of the reserves.
    pub proof fn lemma_swap_keeps_invariants(self, token0_in: bool, amount_in: nat, min_out: nat)
        requires
            self.swap_outcome(token0_in, amount_in, min_out) is Ok,
        ensures
            self.swap_outcome(token0_in, amount_in, min_out)->Ok_0.0.product() >= self.product(),
            ({
                let out = self.swap_outcome(token0_in, amount_in, min_out)->Ok_0.1;
                (self.reserve_in(token0_in) + amount_in) * (self.reserve_out(token0_in) - out)
                    >= self.reserve_in(token0_in) * self.reserve_out(token0_in)
            }),
            self.supply_matches_reserves() ==> self.swap_outcome(
                token0_in,
                amount_in,
                min_out,
            )->Ok_0.0.supply_matches_reserves(),
    {
        let reserve_in = self.reserve_in(token0_in) as nat;
        let reserve_out = self.reserve_out(token0_in) as nat;
        lemma_product_monotonic(reserve_in, reserve_out, amount_in);
        let out = amount_out(reserve_in, reserve_out, amount_in);
        assert((reserve_in + amount_in) * (reserve_out - out) == (reserve_out - out) * (reserve_in
            + amount_in)) by (nonlinear_arith);
        assert(reserve_in * reserve_out == reserve_out * reserve_in) by (nonlinear_arith);
    }

    /// Takes a deposit into the pair: computes what it takes and mints, then
    /// adds the amounts taken to the reserves and the shares issued to the
    /// supply. A refused deposit leaves the pair as it was.
    pub fn deposit(&mut self, desired0: u128, desired1: u128, min0: u128, min1: u128) -> (taken:
        Result<Deposit, DexError>)
        ensures
            match old(self).deposit_outcome(
                desired0 as nat,
                desired1 as nat,
                min0 as nat,
                min1 as nat,
            ) {
                Ok((next, deposit)) => taken == Ok::<Deposit, DexError>(deposit) && *final(self)
                    == next,
                Err(e) => taken == Err::<Deposit, DexError>(e) && *final(self) == *old(self),
            },
            old(self).supply_matches_reserves() ==> final(self).supply_matches_reserves(),
    {
        if !self.is_initialized {
            return Err(DexError::PairNotInitialized);
        }
        let first = self.reserve0 == 0 && self.reserve1 == 0;
        let deposit = quote_deposit(
            self.reserve0,
            self.reserve1,
            self.total_supply,
            desired0,
            desired1,
            min0,
            min1,
        )?;
        let reserve0 = match self.reserve0.checked_add(deposit.amount0) {
            Some(sum) => sum,
            None => { return Err(DexError::ArithmeticOverflow); },
        };
        let reserve1 = match self.reserve1.checked_add(deposit.amount1) {
            Some(sum) => sum,
            None => { return Err(DexError::ArithmeticOverflow); },
        };
        let mut total_supply = match self.total_supply.checked_add(deposit.liquidity) {
            Some(sum) => sum,
            None => { return Err(DexError::ArithmeticOverflow); },
        };
        if first {
            total_supply = match total_supply.checked_add(MINIMUM_LIQUIDITY) {
                Some(sum) => sum,
                None => { return Err(DexError::ArithmeticOverflow); },
            };
        }
        proof {
            if old(self).supply_matches_reserves() {
                old(self).lemma_deposit_keeps_supply_in_step(
                    desired0 as nat,
                    desired1 as nat,
                    min0 as nat,
                    min1 as nat,
                );
            }
        }
        self.reserve0 = reserve0;
        self.reserve1 = reserve1;
        self.total_supply = total_supply;
        Ok(deposit)
    }

    /// Redeems shares: computes what they pay, then takes the amounts paid
    /// from the reserves and the shares from the supply. A refused withdrawal
    /// leaves the pair as it was.
    pub fn withdraw(&mut self, liquidity: u128, min0: u128, min1: u128) -> (paid: Result<
        Withdrawal,
        DexError,
    >)
        ensures
            match old(self).withdrawal_outcome(liquidity as nat, min0 as nat, min1 as nat) {
                Ok((next, withdrawal)) => paid == Ok::<Withdrawal, DexError>(withdrawal)
                    && *final(self) == next,
                Err(e) => paid == Err::<Withdrawal, DexError>(e) && *final(self) == *old(self),
            },
            old(self).supply_matches_reserves() ==> final(self).supply_matches_reserves(),
    {
        if !self.is_initialized {
            return Err(DexError::PairNotInitialized);
        }
        let withdrawal = quote_withdrawal(
            self.reserve0,
            self.reserve1,
            self.total_supply,
            liquidity,
            min0,
            min1,
        )?;
        let reserve0 = match self.reserve0.checked_sub(withdrawal.amount0) {
            Some(rest) => rest,
            None => { return Err(DexError::ArithmeticUnderflow); },
        };
        let reserve1 = match self.reserve1.checked_sub(withdrawal.amount1) {
            Some(rest) => rest,
            None => { return Err(DexError::ArithmeticUnderflow); },
        };
        let total_supply = match self.total_supply.checked_sub(withdrawal.liquidity) {
            Some(rest) => rest,
            None => { return Err(DexError::ArithmeticUnderflow); },
        };
        proof {
            if old(self).supply_matches_reserves() {
                old(self).lemma_withdrawal_keeps_supply_in_step(
                    liquidity as nat,
                    min0 as nat,
                    min1 as nat,
                );
            }
        }
        self.reserve0 = reserve0;
        self.reserve1 = reserve1;
        self.total_supply = total_supply;
        Ok(withdrawal)
    }

    /// Swaps `amount_in` of one asset for the other: computes the output,
    /// moves both reserves, and checks once more that the product of the
    /// reserves has not decreased. A refused swap leaves the pair as it was.
    ///
    /// Neither `InsufficientLiquidity` nor `K` is ever returned: the output
    /// never exceeds its reserve and the product never decreases. Both tests
    /// are kept as a defence.
    pub fn trade(&mut self, token0_in: bool, amount_in: u128, min_out: u128) -> (paid: Result<
        u64,
        DexError,
    >)
        ensures
            match old(self).swap_outcome(token0_in, amount_in as nat, min_out as nat) {
                Ok((next, out)) => paid == Ok::<u64, DexError>(out) && *final(self) == next,
                Err(e) => paid == Err::<u64, DexError>(e) && *final(self) == *old(self),
            },
            paid is Ok ==> final(self).product() >= old(self).product(),
            old(self).supply_matches_reserves() ==> final(self).supply_matches_reserves(),
    {
        if !self.is_initialized {
            return Err(DexError::PairNotInitialized);
        }
        let (reserve_in, reserve_out) = if token0_in {
            (self.reserve0, self.reserve1)
        } else {
            (self.reserve1, self.reserve0)
        };
        let out = quote_swap(reserve_in, reserve_out, amount_in, min_out)?;
        if out > reserve_out {
            return Err(DexError::InsufficientLiquidity);
        }
        let new_reserve_in = match reserve_in.checked_add(amount_in as u64) {
            Some(sum) => sum,
            None => { return Err(DexError::ArithmeticOverflow); },
        };
        let new_reserve_out = reserve_out - out;
        proof {
            old(self).lemma_swap_keeps_invariants(token0_in, amount_in as nat, min_out as nat);
            lemma_product_fits(reserve_in as nat, reserve_out as nat);
            lemma_product_fits(new_reserve_in as nat, new_reserve_out as nat);
        }
        let old_k = (reserve_in as u128) * (reserve_out as u128);
        let new_k = (new_reserve_in as u128) * (new_reserve_out as u128);
        if new_k < old_k {
            return Err(DexError::K);
        }
        if token0_in {
            self.reserve0 = new_reserve_in;
            self.reserve1 = new_reserve_out;
        } else {
            self.reserve1 = new_reserve_in;
            self.reserve0 = new_reserve_out;
        }
        Ok(out)
    }
}

} // verus!
