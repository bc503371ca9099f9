//! The reasons for which an operation is refused.

use vstd::prelude::*;

verus! {

/// Why an operation failed. A failed operation changes nothing.
#[derive(Clone, Copy, Debug, PartialEq, Eq, Hash, Structural)]
pub enum DexError {
    /// The two assets of a pair are one and the same.
    IdenticalTokens,
    /// The record offered for a new pair holds a configured pair.
    PairExists,
    /// The caller is not the owner of the registry.
    NotFactoryOwner,
    /// The pair has been configured before.
    PairAlreadyInitialized,
    /// The pair has not been configured yet.
    PairNotInitialized,
    /// The pair belongs to another registry.
    InvalidPairFactory,
    /// A token account is not the custody account of the pair, or holds an
    /// asset that the operation does not expect.
    InvalidTokenAccount,
    /// The share mint is not the one of the pair.
    InvalidLpMint,
    /// A token account does not belong to the caller.
    InvalidTokenOwner,
    /// A computed amount is below the minimum that the caller accepts.
    InsufficientAmount,
    /// A first deposit is too small to mint any share.
    InsufficientLiquidityMinted,
    /// A quantity does not fit the 64 bits of a token amount.
    AmountOverflow,
    /// The output of a swap is zero or below the minimum that the caller
    /// accepts.
    InsufficientOutputAmount,
    /// The output of a swap exceeds the reserve it is paid from.
    InsufficientLiquidity,
    /// The product of the reserves would decrease across a swap.
    K,
    /// An intermediate product or sum exceeds the width it is computed in.
    ArithmeticOverflow,
    /// An intermediate difference is negative.
    ArithmeticUnderflow,
    /// An intermediate quotient has a zero divisor.
    DivisionByZero,
}

impl DexError {
    /// The text that [`DexError::message`] gives.
    pub open spec fn text(self) -> Seq<char> {
        match self {
            DexError::IdenticalTokens => "Tokens cannot be identical"@,
            DexError::PairExists => "Pair already exists for these tokens"@,
            DexError::NotFactoryOwner => "Only the factory owner can perform this action"@,
            DexError::PairAlreadyInitialized => "Pair is already initialized"@,
            DexError::PairNotInitialized => "Pair is not initialized"@,
            DexError::InvalidPairFactory => "Invalid pair factory"@,
            DexError::InvalidTokenAccount => "Invalid token account"@,
            DexError::InvalidLpMint => "Invalid LP mint"@,
            DexError::InvalidTokenOwner => "Invalid token owner"@,
            DexError::InsufficientAmount => "Insufficient amount"@,
            DexError::InsufficientLiquidityMinted => "Insufficient liquidity minted"@,
            DexError::AmountOverflow => "Amount exceeds maximum allowable token quantity"@,
            DexError::InsufficientOutputAmount => "Insufficient output amount"@,
            DexError::InsufficientLiquidity => "Insufficient liquidity"@,
            DexError::K => "K value decreased - this shouldn't happen"@,
            DexError::ArithmeticOverflow => "Arithmetic overflow"@,
            DexError::ArithmeticUnderflow => "Arithmetic underflow"@,
            DexError::DivisionByZero => "Division by zero"@,
        }
    }

    /// What went wrong, in words.
    pub fn message(&self) -> (text: &'static str)
        ensures
            text@ == self.text(),
    {
        match self {
            DexError::IdenticalTokens => "Tokens cannot be identical",
            DexError::PairExists => "Pair already exists for these tokens",
            DexError::NotFactoryOwner => "Only the factory owner can perform this action",
            DexError::PairAlreadyInitialized => "Pair is already initialized",
            DexError::PairNotInitialized => "Pair is not initialized",
            DexError::InvalidPairFactory => "Invalid pair factory",
            DexError::InvalidTokenAccount => "Invalid token account",
            DexError::InvalidLpMint => "Invalid LP mint",
            DexError::InvalidTokenOwner => "Invalid token owner",
            DexError::InsufficientAmount => "Insufficient amount",
            DexError::InsufficientLiquidityMinted => "Insufficient liquidity minted",
            DexError::AmountOverflow => "Amount exceeds maximum allowable token quantity",
            DexError::InsufficientOutputAmount => "Insufficient output amount",
            DexError::InsufficientLiquidity => "Insufficient liquidity",
            DexError::K => "K value decreased - this shouldn't happen",
            DexError::ArithmeticOverflow => "Arithmetic overflow",
            DexError::ArithmeticUnderflow => "Arithmetic underflow",
            DexError::DivisionByZero => "Division by zero",
        }
    }
}

} // verus!
