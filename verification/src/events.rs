//! What an operation hands to its caller: the custody instructions to
//! execute and the notification to emit.

use vstd::prelude::*;
use crate::address::Address;

verus! {

/// One order to the custodian of the tokens. The caller executes the
/// instructions of an operation in the order given, and all of them or none.
#[derive(Clone, Copy, Debug, PartialEq, Eq)]
pub enum TokenInstruction {
    /// Move `amount` from one token account to another.
    Transfer { from: Address, to: Address, authority: Address, amount: u64 },
    /// Create `amount` share tokens in the token account `to`.
    MintTo { mint: Address, to: Address, authority: Address, amount: u64 },
    /// Destroy `amount` share tokens held in the token account `from`.
    Burn { mint: Address, from: Address, authority: Address, amount: u64 },
}

/// The result of an operation that moves tokens.
#[derive(Clone, Debug, PartialEq, Eq)]
pub struct Settlement<E> {
    /// The custody instructions, in the order in which to execute them.
    pub instructions: Vec<TokenInstruction>,
    /// The notification to emit once the instructions have been executed.
    pub event: E,
}

/// A pair has been configured.
#[derive(Clone, Copy, Debug, PartialEq, Eq)]
pub struct PairCreatedEvent {
    /// The asset with the smaller identity.
    pub token0: Address,
    /// The asset with the larger identity.
    pub token1: Address,
    /// The pair.
    pub pair: Address,
    /// Number of pairs configured, this one included.
    pub pair_count: u64,
}

/// A deposit has been taken.
#[derive(Clone, Copy, Debug, PartialEq, Eq)]
pub struct LiquidityAddedEvent {
    /// The depositor.
    pub sender: Address,
    /// Amount of the first asset taken.
    pub amount0: u64,
    /// Amount of the second asset taken.
    pub amount1: u64,
    /// Shares minted to the depositor.
    pub liquidity: u64,
}

/// Shares have been redeemed.
#[derive(Clone, Copy, Debug, PartialEq, Eq)]
pub struct LiquidityRemovedEvent {
    /// The withdrawer.
    pub sender: Address,
    /// Amount of the first asset paid out.
    pub amount0: u64,
    /// Amount of the second asset paid out.
    pub amount1: u64,
    /// Shares burned.
    pub liquidity: u64,
}

/// A swap has been made.
#[derive(Clone, Copy, Debug, PartialEq, Eq)]
pub struct SwapEvent {
    /// The trader.
    pub sender: Address,
    /// Amount paid in.
    pub amount_in: u64,
    /// Amount paid out.
    pub amount_out: u64,
    /// Whether the asset paid in is the first asset of the pair.
    pub is_token0_in: bool,
}

} // verus!
