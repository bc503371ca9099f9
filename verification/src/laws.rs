//! Laws that relate several operations.

use vstd::prelude::*;
use crate::accounts::{AddLiquidity, ConfigurePair, CreatePairAccount, RemoveLiquidity, Swap};
use crate::address::{lemma_order_total, Address};
use crate::error::DexError;
use crate::events::{LiquidityAddedEvent, SwapEvent, TokenInstruction};
use crate::liquidity::{
    deposit_quote, lemma_second_asset_binds, lemma_share_of_reserve, withdrawal_quote,
    MINIMUM_LIQUIDITY,
};
use crate::math::{is_floor_sqrt, isqrt, lemma_isqrt, lemma_product_fits, lemma_root_fits};
use crate::pricing::{amount_in_with_fee, amount_out, lemma_output_bounded};
use crate::processor::canonical_order;
use crate::state::PairAccount;

verus! {

/// A share of a quotient: where `x <= bound * y`, the floor of `x / y` is at
/// most `bound`.
proof fn lemma_quotient_at_most(x: nat, y: nat, bound: nat)
    requires
        y > 0,
        x < (bound + 1) * y,
    ensures
        x / y <= bound,
{
    assert(x / y <= bound) by (nonlinear_arith)
        requires
            y > 0,
            x < (bound + 1) * y,
    ;
}

/// The side of a proportional deposit that is taken in full, redeemed at
/// once: with `shares = binding * supply / reserve` minted for `binding`, and
/// `other = binding * other_reserve / reserve` taken of the second asset,
/// redeeming `shares` from the enlarged pair pays at most `binding` and at
/// most `other`.
proof fn lemma_bound_side_round_trip(
    binding: nat,
    reserve: nat,
    other_reserve: nat,
    supply: nat,
)
    requires
        reserve > 0,
        supply + binding * supply / reserve > 0,
    ensures
        ({
            let shares = binding * supply / reserve;
            let other = binding * other_reserve / reserve;
            &&& shares * (reserve + binding) / (supply + shares) <= binding
            &&& shares * (other_reserve + other) / (supply + shares) <= other
        }),
{
    let shares = binding * supply / reserve;
    let other = binding * other_reserve / reserve;
    let total = supply + shares;
    assert(shares * reserve <= binding * supply) by (nonlinear_arith)
        requires
            shares == binding * supply / reserve,
            reserve > 0,
    ;
    assert(shares * (reserve + binding) < (binding + 1) * total) by (nonlinear_arith)
        requires
            shares * reserve <= binding * supply,
            total == supply + shares,
            total > 0,
    ;
    lemma_quotient_at_most(shares * (reserve + binding), total, binding);
    assert((other + 1) * reserve > binding * other_reserve) by (nonlinear_arith)
        requires
            other == binding * other_reserve / reserve,
            reserve > 0,
    ;
    if supply == 0 {
        assert(shares == 0) by (nonlinear_arith)
            requires
                shares * reserve <= binding * supply,
                supply == 0,
                reserve > 0,
        ;
        assert(shares * (other_reserve + other) == 0) by (nonlinear_arith)
            requires
                shares == 0,
        ;
    } else {
        assert(shares * other_reserve * reserve < supply * (other + 1) * reserve)
            by (nonlinear_arith)
            requires
                shares * reserve <= binding * supply,
                (other + 1) * reserve > binding * other_reserve,
                supply > 0,
        ;
        assert(shares * other_reserve < supply * (other + 1)) by (nonlinear_arith)
            requires
                shares * other_reserve * reserve < supply * (other + 1) * reserve,
                reserve > 0,
        ;
        assert(shares * (other_reserve + other) < (other + 1) * total) by (nonlinear_arith)
            requires
                shares * other_reserve < supply * (other + 1),
                total == supply + shares,
        ;
    }
    lemma_quotient_at_most(shares * (other_reserve + other), total, other);
}

/// What the shares minted by a deposit stand for in the enlarged pair is, of
/// each asset, at most what the deposit took.
proof fn lemma_round_trip_quotients(
    pair: PairAccount,
    desired0: nat,
    desired1: nat,
    min0: nat,
    min1: nat,
)
    requires
        pair.deposit_outcome(desired0, desired1, min0, min1) is Ok,
        pair.deposit_outcome(desired0, desired1, min0, min1)->Ok_0.0.total_supply > 0,
    ensures
        ({
            let (after, deposit) = pair.deposit_outcome(desired0, desired1, min0, min1)->Ok_0;
            &&& deposit.liquidity * after.reserve0 / (after.total_supply as int)
                <= deposit.amount0
            &&& deposit.liquidity * after.reserve1 / (after.total_supply as int)
                <= deposit.amount1
        }),
{
    let (after, deposit) = pair.deposit_outcome(desired0, desired1, min0, min1)->Ok_0;
    let reserve0 = pair.reserve0 as nat;
    let reserve1 = pair.reserve1 as nat;
    let supply = pair.total_supply as nat;
    let shares = deposit.liquidity as nat;
    let total = after.total_supply as nat;
    if reserve0 == 0 && reserve1 == 0 {
        assert(shares * desired0 < (desired0 + 1) * total) by (nonlinear_arith)
            requires
                shares < total,
        ;
        lemma_quotient_at_most(shares * desired0, total, desired0);
        assert(shares * desired1 < (desired1 + 1) * total) by (nonlinear_arith)
            requires
                shares < total,
        ;
        lemma_quotient_at_most(shares * desired1, total, desired1);
    } else if desired0 * reserve1 / reserve0 <= desired1 {
        lemma_bound_side_round_trip(desired0, reserve0, reserve1, supply);
    } else {
        lemma_second_asset_binds(reserve0, reserve1, desired0, desired1);
        lemma_bound_side_round_trip(desired1, reserve1, reserve0, supply);
    }
}

/// Round trip: a deposit followed at once by the redemption of the shares it
/// minted pays back, of each asset, at most the amount that the deposit took.
/// Flooring works for the pair at both steps.
pub proof fn lemma_round_trip(
    pair: PairAccount,
    desired0: nat,
    desired1: nat,
    min0: nat,
    min1: nat,
    back_min0: nat,
    back_min1: nat,
)
    requires
        pair.deposit_outcome(desired0, desired1, min0, min1) is Ok,
        pair.deposit_outcome(desired0, desired1, min0, min1)->Ok_0.0.withdrawal_outcome(
            pair.deposit_outcome(desired0, desired1, min0, min1)->Ok_0.1.liquidity as nat,
            back_min0,
            back_min1,
        ) is Ok,
    ensures
        ({
            let (after, deposit) = pair.deposit_outcome(desired0, desired1, min0, min1)->Ok_0;
            let (_, withdrawal) = after.withdrawal_outcome(
                deposit.liquidity as nat,
                back_min0,
                back_min1,
            )->Ok_0;
            &&& withdrawal.liquidity == deposit.liquidity
            &&& withdrawal.amount0 <= deposit.amount0
            &&& withdrawal.amount1 <= deposit.amount1
        }),
{
    lemma_round_trip_quotients(pair, desired0, desired1, min0, min1);
}

/// Round trip, with its success: on a pair whose supply is in step with its
/// reserves, the shares that a deposit minted can be redeemed at once, and
/// the redemption pays back, of each asset, at most the amount that the
/// deposit took.
pub proof fn lemma_round_trip_succeeds(
    pair: PairAccount,
    desired0: nat,
    desired1: nat,
    min0: nat,
    min1: nat,
)
    requires
        pair.supply_matches_reserves(),
        pair.deposit_outcome(desired0, desired1, min0, min1) is Ok,
    ensures
        ({
            let (after, deposit) = pair.deposit_outcome(desired0, desired1, min0, min1)->Ok_0;
            let back = after.withdrawal_outcome(deposit.liquidity as nat, 0, 0);
            &&& back is Ok
            &&& back->Ok_0.1.liquidity == deposit.liquidity
            &&& back->Ok_0.1.amount0 <= deposit.amount0
            &&& back->Ok_0.1.amount1 <= deposit.amount1
        }),
{
    pair.lemma_deposit_keeps_supply_in_step(desired0, desired1, min0, min1);
    lemma_round_trip_quotients(pair, desired0, desired1, min0, min1);
}

/// Round trip of the two operations: after a deposit into a pair whose
/// supply is in step with its reserves, a withdrawal of the shares minted,
/// with no minimum, is refused only by its checks on the accounts; else it
/// succeeds and pays, of each asset, at most the amount that the deposit
/// took.
pub proof fn lemma_deposit_then_withdrawal(
    deposit_accounts: AddLiquidity,
    withdrawal_accounts: RemoveLiquidity,
    desired0: nat,
    desired1: nat,
    min0: nat,
    min1: nat,
)
    requires
        deposit_accounts.pair.supply_matches_reserves(),
        deposit_accounts.outcome(desired0, desired1, min0, min1) is Ok,
        withdrawal_accounts.pair == deposit_accounts.outcome(
            desired0,
            desired1,
            min0,
            min1,
        )->Ok_0.0.pair,
    ensures
        ({
            let (_, _, added) = deposit_accounts.outcome(desired0, desired1, min0, min1)->Ok_0;
            let back = withdrawal_accounts.outcome(added.liquidity as nat, 0, 0);
            match withdrawal_accounts.checked() {
                Err(e) => back is Err && back->Err_0 == e,
                Ok(_) => {
                    &&& back is Ok
                    &&& back->Ok_0.2.liquidity == added.liquidity
                    &&& back->Ok_0.2.amount0 <= added.amount0
                    &&& back->Ok_0.2.amount1 <= added.amount1
                },
            }
        }),
{
    lemma_round_trip_succeeds(deposit_accounts.pair, desired0, desired1, min0, min1);
}

/// Canonical order does not depend on the order of the arguments: of two
/// different assets the one with the smaller identity is stored first,
/// whichever is named first.
pub proof fn lemma_canonical_order(x: Address, y: Address)
    requires
        x != y,
    ensures
        canonical_order(x, y) == canonical_order(y, x),
        canonical_order(x, y).0.precedes(canonical_order(x, y).1),
        canonical_order(x, y) == (x, y) || canonical_order(x, y) == (y, x),
{
    lemma_order_total(x, y);
}

/// The accounts of a configuration with the two assets, and with them their
/// custody accounts, given the other way round.
pub open spec fn swapped(accounts: ConfigurePair) -> ConfigurePair {
    ConfigurePair {
        token0: accounts.token1,
        token1: accounts.token0,
        token0_account: accounts.token1_account,
        token1_account: accounts.token0_account,
        ..accounts
    }
}

/// Configuration does not depend on the order in which the two assets are
/// given: given either way round, each with its custody account, it is
/// refused for the same reason or leaves the same pair, the same registry
/// and the same notification. The pair it leaves holds two different assets,
/// the smaller identity first, and beside each asset the custody account that
/// was given with it.
pub proof fn lemma_configure_orders_tokens(accounts: ConfigurePair)
    ensures
        accounts.outcome() is Err ==> {
            let other = swapped(accounts).outcome();
            other is Err && other->Err_0 == accounts.outcome()->Err_0
        },
        accounts.outcome() is Ok ==> {
            let (after, event) = accounts.outcome()->Ok_0;
            let (other_after, other_event) = swapped(accounts).outcome()->Ok_0;
            &&& swapped(accounts).outcome() is Ok
            &&& other_after.pair == after.pair
            &&& other_after.factory == after.factory
            &&& other_event == event
            &&& after.pair.token0 != after.pair.token1
            &&& after.pair.canonical()
            &&& after.pair.token0 == accounts.token0 ==> after.pair.token0_account
                == accounts.token0_account && after.pair.token1_account == accounts.token1_account
            &&& after.pair.token0 == accounts.token1 ==> after.pair.token0_account
                == accounts.token1_account && after.pair.token1_account == accounts.token0_account
        },
{
    if accounts.token0 != accounts.token1 {
        lemma_canonical_order(accounts.token0, accounts.token1);
    }
}

/// One operation on the balances of a pair, with its arguments.
pub enum Step {
    /// A deposit of liquidity.
    Deposit { desired0: nat, desired1: nat, min0: nat, min1: nat },
    /// A withdrawal of liquidity.
    Withdraw { liquidity: nat, min0: nat, min1: nat },
    /// A swap.
    Swap { token0_in: bool, amount_in: nat, min_out: nat },
}

/// The pair after one operation: changed as the operation says where it
/// succeeds, unchanged where it is refused.
pub open spec fn after_step(pair: PairAccount, step: Step) -> PairAccount {
    match step {
        Step::Deposit { desired0, desired1, min0, min1 } => match pair.deposit_outcome(
            desired0,
            desired1,
            min0,
            min1,
        ) {
            Ok((next, _)) => next,
            Err(_) => pair,
        },
        Step::Withdraw { liquidity, min0, min1 } => match pair.withdrawal_outcome(
            liquidity,
            min0,
            min1,
        ) {
            Ok((next, _)) => next,
            Err(_) => pair,
        },
        Step::Swap { token0_in, amount_in, min_out } => match pair.swap_outcome(
            token0_in,
            amount_in,
            min_out,
        ) {
            Ok((next, _)) => next,
            Err(_) => pair,
        },
    }
}

/// The pair after a sequence of operations, made one after the other.
pub open spec fn after_steps(pair: PairAccount, steps: Seq<Step>) -> PairAccount
    decreases steps.len(),
{
    if steps.len() == 0 {
        pair
    } else {
        after_step(after_steps(pair, steps.drop_last()), steps.last())
    }
}

/// One operation changes nothing of a pair but its reserves and its supply,
/// and keeps the supply in step with the reserves.
pub proof fn lemma_step_keeps_invariant(pair: PairAccount, step: Step)
    ensures
        after_step(pair, step) == pair.with_balances(
            after_step(pair, step).reserve0,
            after_step(pair, step).reserve1,
            after_step(pair, step).total_supply,
        ),
        pair.supply_matches_reserves() ==> after_step(pair, step).supply_matches_reserves(),
        step is Swap ==> after_step(pair, step).product() >= pair.product(),
        step is Swap ==> after_step(pair, step).total_supply == pair.total_supply,
{
    match step {
        Step::Deposit { desired0, desired1, min0, min1 } => {
            if pair.supply_matches_reserves() && pair.deposit_outcome(
                desired0,
                desired1,
                min0,
                min1,
            ) is Ok {
                pair.lemma_deposit_keeps_supply_in_step(desired0, desired1, min0, min1);
            }
        },
        Step::Withdraw { liquidity, min0, min1 } => {
            if pair.supply_matches_reserves() && pair.withdrawal_outcome(liquidity, min0, min1)
                is Ok {
                pair.lemma_withdrawal_keeps_supply_in_step(liquidity, min0, min1);
            }
        },
        Step::Swap { token0_in, amount_in, min_out } => {
            if pair.swap_outcome(token0_in, amount_in, min_out) is Ok {
                pair.lemma_swap_keeps_invariants(token0_in, amount_in, min_out);
            }
        },
    }
}

/// In every state that a pair can reach from its configuration by deposits,
/// withdrawals and swaps, no shares are outstanding exactly when both
/// reserves are empty. The pair stays configured, its two assets stay
/// different and in canonical order, and its assets, custody accounts and
/// share mint stay those of its configuration.
pub proof fn lemma_reachable_states(accounts: ConfigurePair, steps: Seq<Step>)
    requires
        accounts.outcome() is Ok,
    ensures
        ({
            let configured = accounts.outcome()->Ok_0.0.pair;
            let reached = after_steps(configured, steps);
            &&& reached.supply_matches_reserves()
            &&& reached == configured.with_balances(
                reached.reserve0,
                reached.reserve1,
                reached.total_supply,
            )
            &&& reached.is_initialized
            &&& reached.token0 != reached.token1
            &&& reached.canonical()
        }),
    decreases steps.len(),
{
    lemma_canonical_order(accounts.token0, accounts.token1);
    if steps.len() > 0 {
        lemma_reachable_states(accounts, steps.drop_last());
        lemma_step_keeps_invariant(
            after_steps(accounts.outcome()->Ok_0.0.pair, steps.drop_last()),
            steps.last(),
        );
    }
}

/// Configuration is for good: in every state that a pair can reach from its
/// configuration, any further configuration is refused, and so is any
/// allocation that would blank the record, whoever asks and whatever is
/// offered.
pub proof fn lemma_configure_once(
    first: ConfigurePair,
    steps: Seq<Step>,
    second: ConfigurePair,
    allocation: CreatePairAccount,
)
    requires
        first.outcome() is Ok,
        second.pair == after_steps(first.outcome()->Ok_0.0.pair, steps),
        allocation.pair == after_steps(first.outcome()->Ok_0.0.pair, steps),
    ensures
        second.outcome() == Err::<(ConfigurePair, crate::events::PairCreatedEvent), DexError>(
            DexError::PairAlreadyInitialized,
        ),
        allocation.outcome() == Err::<CreatePairAccount, DexError>(DexError::PairExists),
{
    lemma_reachable_states(first, steps);
}

/// A withdrawal rounds in favour of the pair: what is paid out of each
/// reserve is at most the fraction of it that the shares redeemed are of the
/// supply, so each reserve shrinks by no more than the supply does.
pub proof fn lemma_withdrawal_favours_pair(pair: PairAccount, liquidity: nat, min0: nat, min1: nat)
    requires
        pair.withdrawal_outcome(liquidity, min0, min1) is Ok,
    ensures
        ({
            let (after, withdrawal) = pair.withdrawal_outcome(liquidity, min0, min1)->Ok_0;
            &&& withdrawal.amount0 * pair.total_supply <= liquidity * pair.reserve0
            &&& withdrawal.amount1 * pair.total_supply <= liquidity * pair.reserve1
            &&& after.reserve0 * pair.total_supply >= pair.reserve0 * after.total_supply
            &&& after.reserve1 * pair.total_supply >= pair.reserve1 * after.total_supply
        }),
{
    let (after, withdrawal) = pair.withdrawal_outcome(liquidity, min0, min1)->Ok_0;
    let supply = pair.total_supply as nat;
    let reserve0 = pair.reserve0 as nat;
    let reserve1 = pair.reserve1 as nat;
    let amount0 = withdrawal.amount0 as nat;
    let amount1 = withdrawal.amount1 as nat;
    assert(amount0 * supply <= liquidity * reserve0) by (nonlinear_arith)
        requires
            amount0 == liquidity * reserve0 / supply,
            supply > 0,
    ;
    assert(amount1 * supply <= liquidity * reserve1) by (nonlinear_arith)
        requires
            amount1 == liquidity * reserve1 / supply,
            supply > 0,
    ;
    assert((reserve0 - amount0) * supply >= reserve0 * (supply - liquidity)) by (nonlinear_arith)
        requires
            amount0 * supply <= liquidity * reserve0,
    ;
    assert((reserve1 - amount1) * supply >= reserve1 * (supply - liquidity)) by (nonlinear_arith)
        requires
            amount1 * supply <= liquidity * reserve1,
    ;
}

/// A deposit takes of each asset no more than the depositor offers and no
/// less than the depositor accepts, and takes one of the two offers in full.
pub proof fn lemma_deposit_within_offer(
    reserve0: nat,
    reserve1: nat,
    supply: nat,
    desired0: nat,
    desired1: nat,
    min0: nat,
    min1: nat,
)
    requires
        deposit_quote(reserve0, reserve1, supply, desired0, desired1, min0, min1) is Ok,
    ensures
        ({
            let deposit = deposit_quote(
                reserve0,
                reserve1,
                supply,
                desired0,
                desired1,
                min0,
                min1,
            )->Ok_0;
            &&& min0 <= deposit.amount0 <= desired0
            &&& min1 <= deposit.amount1 <= desired1
            &&& deposit.amount0 == desired0 || deposit.amount1 == desired1
        }),
{
    if !(reserve0 == 0 && reserve1 == 0) && desired0 * reserve1 / reserve0 > desired1 {
        lemma_second_asset_binds(reserve0, reserve1, desired0, desired1);
    }
}

/// The shares of a first deposit: together with the locked minimum they are
/// the floor of the square root of the product of the two amounts taken.
pub proof fn lemma_first_deposit_shares(desired0: nat, desired1: nat, min0: nat, min1: nat)
    requires
        deposit_quote(0, 0, 0, desired0, desired1, min0, min1) is Ok,
    ensures
        ({
            let deposit = deposit_quote(0, 0, 0, desired0, desired1, min0, min1)->Ok_0;
            &&& deposit.amount0 == desired0
            &&& deposit.amount1 == desired1
            &&& deposit.liquidity > 0
            &&& is_floor_sqrt(
                desired0 * desired1,
                (deposit.liquidity + MINIMUM_LIQUIDITY) as nat,
            )
        }),
{
    lemma_product_fits(desired0, desired1);
    lemma_root_fits(desired0 * desired1);
    lemma_isqrt(desired0 * desired1);
}

/// Redeeming no more shares than are outstanding pays no more than the
/// reserves hold, and redeeming all of them pays the reserves out in full.
pub proof fn lemma_withdrawal_within_reserves(
    reserve0: nat,
    reserve1: nat,
    supply: nat,
    liquidity: nat,
    min0: nat,
    min1: nat,
)
    requires
        liquidity <= supply,
        withdrawal_quote(reserve0, reserve1, supply, liquidity, min0, min1) is Ok,
    ensures
        ({
            let withdrawal = withdrawal_quote(
                reserve0,
                reserve1,
                supply,
                liquidity,
                min0,
                min1,
            )->Ok_0;
            &&& withdrawal.amount0 <= reserve0
            &&& withdrawal.amount1 <= reserve1
            &&& liquidity == supply ==> withdrawal.amount0 == reserve0 && withdrawal.amount1
                == reserve1
        }),
{
    lemma_share_of_reserve(liquidity, reserve0, supply);
    lemma_share_of_reserve(liquidity, reserve1, supply);
}

/// The first deposit, for all amounts: into a configured pair with no
/// reserves and no shares, a deposit of two amounts that fit 64 bits, reach
/// the depositor's minimums and whose product has a square root `root` above
/// the locked minimum is refused only by the checks on the accounts. Else
/// it takes both amounts in full, mints the locked minimum out of reach and
/// `root` less the locked minimum to the depositor, and leaves `root` shares
/// outstanding.
pub proof fn lemma_first_deposit(
    accounts: AddLiquidity,
    desired0: nat,
    desired1: nat,
    min0: nat,
    min1: nat,
)
    requires
        accounts.pair.reserve0 == 0,
        accounts.pair.reserve1 == 0,
        accounts.pair.total_supply == 0,
        desired0 <= u64::MAX,
        desired1 <= u64::MAX,
        isqrt(desired0 * desired1) > MINIMUM_LIQUIDITY,
        min0 <= desired0,
        min1 <= desired1,
    ensures
        ({
            let root = isqrt(desired0 * desired1);
            let outcome = accounts.outcome(desired0, desired1, min0, min1);
            match accounts.checked() {
                Err(e) => outcome is Err && outcome->Err_0 == e,
                Ok(_) => {
                    &&& root <= u64::MAX
                    &&& outcome is Ok
                    &&& outcome->Ok_0.0.pair == accounts.pair.with_balances(
                        desired0 as u64,
                        desired1 as u64,
                        root as u64,
                    )
                    &&& outcome->Ok_0.2 == (LiquidityAddedEvent {
                        sender: accounts.sender,
                        amount0: desired0 as u64,
                        amount1: desired1 as u64,
                        liquidity: (root - MINIMUM_LIQUIDITY) as u64,
                    })
                    &&& outcome->Ok_0.1 == seq![
                        TokenInstruction::Transfer {
                            from: accounts.user_token0.key,
                            to: accounts.token0_account,
                            authority: accounts.sender,
                            amount: desired0 as u64,
                        },
                        TokenInstruction::Transfer {
                            from: accounts.user_token1.key,
                            to: accounts.token1_account,
                            authority: accounts.sender,
                            amount: desired1 as u64,
                        },
                        TokenInstruction::MintTo {
                            mint: accounts.lp_mint,
                            to: accounts.burn_account.key,
                            authority: accounts.authority,
                            amount: MINIMUM_LIQUIDITY,
                        },
                        TokenInstruction::MintTo {
                            mint: accounts.lp_mint,
                            to: accounts.liquidity_to.key,
                            authority: accounts.authority,
                            amount: (root - MINIMUM_LIQUIDITY) as u64,
                        },
                    ]
                },
            }
        }),
{
    lemma_product_fits(desired0, desired1);
    lemma_root_fits(desired0 * desired1);
}

/// What the side of a later deposit that is taken in full comes to:
/// `binding` of one asset, `binding * other_reserve / reserve` of the other,
/// and `binding * supply / reserve` shares.
pub open spec fn bound_amounts(binding: nat, reserve: nat, other_reserve: nat, supply: nat) -> (
    nat,
    nat,
    nat,
) {
    (binding, binding * other_reserve / reserve, binding * supply / reserve)
}

/// What a later deposit comes to, as `(amount0, amount1, shares)`: the
/// first asset is taken in full where the amount of the second asset that
/// matches it is at most `desired1`, else the second asset is.
pub open spec fn proportional_amounts(
    reserve0: nat,
    reserve1: nat,
    supply: nat,
    desired0: nat,
    desired1: nat,
) -> (nat, nat, nat) {
    if desired0 * reserve1 / reserve0 <= desired1 {
        bound_amounts(desired0, reserve0, reserve1, supply)
    } else {
        let (amount1, amount0, shares) = bound_amounts(desired1, reserve1, reserve0, supply);
        (amount0, amount1, shares)
    }
}

/// A later deposit, for all amounts: into a configured pair with both
/// reserves above zero, a deposit whose products fit 128 bits, whose amounts
/// and shares fit 64 bits together with the balances they are added to, and
/// whose amounts reach the depositor's minimums, is refused only by the
/// checks on the accounts. Else it takes the amounts and mints the shares of
/// [`proportional_amounts`], and adds each to its balance.
pub proof fn lemma_later_deposit(
    accounts: AddLiquidity,
    desired0: nat,
    desired1: nat,
    min0: nat,
    min1: nat,
)
    requires
        accounts.pair.reserve0 > 0,
        accounts.pair.reserve1 > 0,
        desired0 * accounts.pair.reserve1 <= u128::MAX,
        desired1 * accounts.pair.reserve0 <= u128::MAX,
        desired0 * accounts.pair.total_supply <= u128::MAX,
        desired1 * accounts.pair.total_supply <= u128::MAX,
        ({
            let (amount0, amount1, shares) = proportional_amounts(
                accounts.pair.reserve0 as nat,
                accounts.pair.reserve1 as nat,
                accounts.pair.total_supply as nat,
                desired0,
                desired1,
            );
            &&& min0 <= amount0
            &&& min1 <= amount1
            &&& accounts.pair.reserve0 + amount0 <= u64::MAX
            &&& accounts.pair.reserve1 + amount1 <= u64::MAX
            &&& accounts.pair.total_supply + shares <= u64::MAX
        }),
    ensures
        ({
            let (amount0, amount1, shares) = proportional_amounts(
                accounts.pair.reserve0 as nat,
                accounts.pair.reserve1 as nat,
                accounts.pair.total_supply as nat,
                desired0,
                desired1,
            );
            let outcome = accounts.outcome(desired0, desired1, min0, min1);
            match accounts.checked() {
                Err(e) => outcome is Err && outcome->Err_0 == e,
                Ok(_) => {
                    &&& outcome is Ok
                    &&& outcome->Ok_0.0.pair == accounts.pair.with_balances(
                        (accounts.pair.reserve0 + amount0) as u64,
                        (accounts.pair.reserve1 + amount1) as u64,
                        (accounts.pair.total_supply + shares) as u64,
                    )
                    &&& outcome->Ok_0.2 == (LiquidityAddedEvent {
                        sender: accounts.sender,
                        amount0: amount0 as u64,
                        amount1: amount1 as u64,
                        liquidity: shares as u64,
                    })
                    &&& outcome->Ok_0.1 == seq![
                        TokenInstruction::Transfer {
                            from: accounts.user_token0.key,
                            to: accounts.token0_account,
                            authority: accounts.sender,
                            amount: amount0 as u64,
                        },
                        TokenInstruction::Transfer {
                            from: accounts.user_token1.key,
                            to: accounts.token1_account,
                            authority: accounts.sender,
                            amount: amount1 as u64,
                        },
                        TokenInstruction::MintTo {
                            mint: accounts.lp_mint,
                            to: accounts.liquidity_to.key,
                            authority: accounts.authority,
                            amount: shares as u64,
                        },
                    ]
                },
            }
        }),
{
}

/// A swap, for all amounts: on a configured pair, a swap of `amount_in`
/// that fits 64 bits together with the reserve it is added to, whose product
/// with the fee factor and the output reserve fits 128 bits, and whose
/// output by the closed formula is above zero and reaches the trader's
/// minimum, is refused only by the checks on the accounts. Else it pays
/// exactly the output of the formula, adds the input to the reserve of its
/// asset and takes the output from the other reserve.
pub proof fn lemma_swap_pays_formula(accounts: Swap, amount_in: nat, min_out: nat)
    requires
        accounts.pair.reserve_in(accounts.token0_in()) + amount_in <= u64::MAX,
        amount_in_with_fee(amount_in) * accounts.pair.reserve_out(accounts.token0_in())
            <= u128::MAX,
        accounts.pair.reserve_in(accounts.token0_in()) > 0 || amount_in > 0,
        amount_out(
            accounts.pair.reserve_in(accounts.token0_in()) as nat,
            accounts.pair.reserve_out(accounts.token0_in()) as nat,
            amount_in,
        ) > 0,
        amount_out(
            accounts.pair.reserve_in(accounts.token0_in()) as nat,
            accounts.pair.reserve_out(accounts.token0_in()) as nat,
            amount_in,
        ) >= min_out,
    ensures
        ({
            let reserve_in = accounts.pair.reserve_in(accounts.token0_in());
            let reserve_out = accounts.pair.reserve_out(accounts.token0_in());
            let out = amount_out(reserve_in as nat, reserve_out as nat, amount_in);
            let outcome = accounts.outcome(amount_in, min_out);
            match accounts.checked() {
                Err(e) => outcome is Err && outcome->Err_0 == e,
                Ok(_) => {
                    &&& out <= reserve_out
                    &&& outcome is Ok
                    &&& outcome->Ok_0.0.pair.reserve_in(accounts.token0_in()) == reserve_in
                        + amount_in
                    &&& outcome->Ok_0.0.pair.reserve_out(accounts.token0_in()) == reserve_out
                        - out
                    &&& outcome->Ok_0.0.pair == accounts.pair.with_balances(
                        outcome->Ok_0.0.pair.reserve0,
                        outcome->Ok_0.0.pair.reserve1,
                        accounts.pair.total_supply,
                    )
                    &&& outcome->Ok_0.2 == (SwapEvent {
                        sender: accounts.sender,
                        amount_in: amount_in as u64,
                        amount_out: out as u64,
                        is_token0_in: accounts.token0_in(),
                    })
                    &&& outcome->Ok_0.1 == accounts.instructions(amount_in as u64, out as u64)
                },
            }
        }),
{
    lemma_output_bounded(
        accounts.pair.reserve_in(accounts.token0_in()) as nat,
        accounts.pair.reserve_out(accounts.token0_in()) as nat,
        amount_in,
    );
}

} // verus!
