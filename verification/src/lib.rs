//! Accounting core of a constant-product exchange: a registry of trading
//! pairs, each with two reserves and a supply of share tokens, and the exact
//! integer arithmetic for deposits, withdrawals and swaps.
//!
//! Every function here is verified, and none panics: what cannot be computed
//! is reported as a [`DexError`], and an operation that fails changes
//! nothing. Custody transfers, share minting and event delivery are left to
//! the caller: an operation returns the instructions to execute, in order,
//! together with the event to emit.
//!
//! - [`math`]: floor square root and checked arithmetic.
//! - [`address`]: 32-byte identities and their lexicographic order.
//! - [`liquidity`]: what a deposit takes and mints, what a withdrawal pays.
//! - [`pricing`]: what a swap pays.
//! - [`state`]: the registry and pair records, and how deposits,
//!   withdrawals and swaps change a pair.
//! - [`accounts`], [`events`]: what an operation is given and what it hands
//!   back.
//! - [`processor`]: the operations.
//! - [`laws`]: what holds across operations.

pub mod accounts;
pub mod address;
pub mod error;
pub mod events;
pub mod laws;
pub mod liquidity;
pub mod math;
pub mod pricing;
pub mod processor;
pub mod state;

pub use crate::accounts::{
    AddLiquidity, ConfigurePair, CreatePairAccount, CreatePairAccountBumps, CreateTokenAccounts,
    Initialize, RemoveLiquidity, Swap, TokenAccountMeta,
};
pub use crate::address::Address;
pub use crate::error::DexError;
pub use crate::events::{
    LiquidityAddedEvent, LiquidityRemovedEvent, PairCreatedEvent, Settlement, SwapEvent,
    TokenInstruction,
};
pub use crate::liquidity::{Deposit, Withdrawal, MINIMUM_LIQUIDITY};
pub use crate::math::{mul_div, sqrt, to_amount};
pub use crate::processor::{
    add_liquidity, configure_pair, create_pair_account, create_token_accounts, initialize,
    remove_liquidity, swap,
};
pub use crate::state::{Factory, PairAccount};
