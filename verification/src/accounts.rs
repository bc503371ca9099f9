//! The accounts that each operation works on, as plain values, and the
//! checks that an operation makes on them before it does anything.

use vstd::prelude::*;
use crate::address::Address;
use crate::error::DexError;
use crate::state::{Factory, PairAccount};

verus! {

/// What an operation reads of a token account: where it is, which asset it
/// holds and whose it is.
#[derive(Clone, Copy, Debug, PartialEq, Eq)]
pub struct TokenAccountMeta {
    /// The address of the token account.
    pub key: Address,
    /// The asset, or the class of share tokens, that the account holds.
    pub mint: Address,
    /// The owner of the balance.
    pub owner: Address,
}

/// Accounts of [`initialize`](crate::processor::initialize).
#[derive(Clone, Copy, Debug, PartialEq, Eq)]
pub struct Initialize {
    /// The registry record to fill.
    pub factory: Factory,
    /// Who is to own the registry.
    pub owner: Address,
}

/// Accounts of [`create_token_accounts`](crate::processor::create_token_accounts).
#[derive(Clone, Copy, Debug, PartialEq, Eq)]
pub struct CreateTokenAccounts {
    /// One asset of the pair to be.
    pub token0: Address,
    /// The other asset.
    pub token1: Address,
}

/// The bumps of the two addresses derived for a new pair.
#[derive(Clone, Copy, Debug, PartialEq, Eq)]
pub struct CreatePairAccountBumps {
    /// Bump of the pair's own address.
    pub pair: u8,
    /// Bump of the pair's signing authority.
    pub authority: u8,
}

/// Accounts of [`create_pair_account`](crate::processor::create_pair_account).
#[derive(Clone, Copy, Debug, PartialEq, Eq)]
pub struct CreatePairAccount {
    /// The registry.
    pub factory: Factory,
    /// The pair record to allocate.
    pub pair: PairAccount,
    /// One asset of the pair.
    pub token0: Address,
    /// The other asset.
    pub token1: Address,
    /// Who claims to own the registry.
    pub owner: Address,
    /// The bumps found when the addresses were derived.
    pub bumps: CreatePairAccountBumps,
}

/// Accounts of [`configure_pair`](crate::processor::configure_pair).
#[derive(Clone, Copy, Debug, PartialEq, Eq)]
pub struct ConfigurePair {
    /// Address of the registry.
    pub factory_key: Address,
    /// The registry.
    pub factory: Factory,
    /// Address of the pair.
    pub pair_key: Address,
    /// The pair.
    pub pair: PairAccount,
    /// One asset of the pair.
    pub token0: Address,
    /// The other asset.
    pub token1: Address,
    /// The class of share tokens of the pair.
    pub lp_mint: Address,
    /// Where the reserve of `token0` is held.
    pub token0_account: Address,
    /// Where the reserve of `token1` is held.
    pub token1_account: Address,
    /// Who claims to own the registry.
    pub owner: Address,
}

/// Accounts of [`add_liquidity`](crate::processor::add_liquidity).
#[derive(Clone, Copy, Debug, PartialEq, Eq)]
pub struct AddLiquidity {
    /// Address of the registry.
    pub factory_key: Address,
    /// The registry.
    pub factory: Factory,
    /// The pair.
    pub pair: PairAccount,
    /// The custody account offered for the first asset.
    pub token0_account: Address,
    /// The custody account offered for the second asset.
    pub token1_account: Address,
    /// The depositor's account of the first asset.
    pub user_token0: TokenAccountMeta,
    /// The depositor's account of the second asset.
    pub user_token1: TokenAccountMeta,
    /// The class of share tokens offered.
    pub lp_mint: Address,
    /// The depositor's account of share tokens.
    pub liquidity_to: TokenAccountMeta,
    /// The account that holds the locked minimum, out of anyone's reach.
    pub burn_account: TokenAccountMeta,
    /// The pair's signing authority.
    pub authority: Address,
    /// The depositor.
    pub sender: Address,
    /// Who is named as owner of the registry.
    pub owner: Address,
}

/// Accounts of [`remove_liquidity`](crate::processor::remove_liquidity).
#[derive(Clone, Copy, Debug, PartialEq, Eq)]
pub struct RemoveLiquidity {
    /// Address of the registry.
    pub factory_key: Address,
    /// The registry.
    pub factory: Factory,
    /// The pair.
    pub pair: PairAccount,
    /// The custody account offered for the first asset.
    pub token0_account: Address,
    /// The custody account offered for the second asset.
    pub token1_account: Address,
    /// The withdrawer's account of the first asset.
    pub token0_to: TokenAccountMeta,
    /// The withdrawer's account of the second asset.
    pub token1_to: TokenAccountMeta,
    /// The class of share tokens offered.
    pub lp_mint: Address,
    /// The withdrawer's account of share tokens.
    pub liquidity_from: TokenAccountMeta,
    /// The pair's signing authority.
    pub authority: Address,
    /// The withdrawer.
    pub sender: Address,
    /// Who is named as owner of the registry.
    pub owner: Address,
}

/// Accounts of [`swap`](crate::processor::swap).
#[derive(Clone, Copy, Debug, PartialEq, Eq)]
pub struct Swap {
    /// The pair.
    pub pair: PairAccount,
    /// The custody account offered for the first asset.
    pub token0_account: Address,
    /// The custody account offered for the second asset.
    pub token1_account: Address,
    /// The trader's account of the asset paid in.
    pub token_in: TokenAccountMeta,
    /// The trader's account of the asset paid out.
    pub token_out: TokenAccountMeta,
    /// The pair's signing authority.
    pub authority: Address,
    /// The trader.
    pub sender: Address,
}

/// The checks on a pair that takes or pays liquidity, in the order in which
/// they are made: the registry is owned by `owner`, the pair is configured
/// and belongs to the registry, and the custody accounts and the share mint
/// are those of the pair.
pub open spec fn liquidity_accounts_checked(
    factory_key: Address,
    factory: Factory,
    pair: PairAccount,
    token0_account: Address,
    token1_account: Address,
    lp_mint: Address,
    owner: Address,
) -> Result<(), DexError> {
    if factory.owner != owner {
        Err(DexError::NotFactoryOwner)
    } else if !pair.is_initialized {
        Err(DexError::PairNotInitialized)
    } else if pair.factory != factory_key {
        Err(DexError::InvalidPairFactory)
    } else if pair.token0_account != token0_account || pair.token1_account != token1_account {
        Err(DexError::InvalidTokenAccount)
    } else if pair.lp_mint != lp_mint {
        Err(DexError::InvalidLpMint)
    } else {
        Ok(())
    }
}

/// The checks on a token account of the caller: it holds `mint`, and it
/// belongs to `owner`.
pub open spec fn holder_checked(account: TokenAccountMeta, mint: Address, owner: Address)
    -> Result<(), DexError> {
    if account.mint != mint {
        Err(DexError::InvalidTokenAccount)
    } else if account.owner != owner {
        Err(DexError::InvalidTokenOwner)
    } else {
        Ok(())
    }
}

/// `first`, where it is a refusal, else `next`: two checks made in this
/// order.
pub open spec fn then_checked(first: Result<(), DexError>, next: Result<(), DexError>) -> Result<
    (),
    DexError,
> {
    if first is Err {
        first
    } else {
        next
    }
}

/// Computes [`liquidity_accounts_checked`].
pub fn check_liquidity_accounts(
    factory_key: &Address,
    factory: &Factory,
    pair: &PairAccount,
    token0_account: &Address,
    token1_account: &Address,
    lp_mint: &Address,
    owner: &Address,
) -> (checked: Result<(), DexError>)
    ensures
        checked == liquidity_accounts_checked(
            *factory_key,
            *factory,
            *pair,
            *token0_account,
            *token1_account,
            *lp_mint,
            *owner,
        ),
{
    if factory.owner != *owner {
        return Err(DexError::NotFactoryOwner);
    }
    if !pair.is_initialized {
        return Err(DexError::PairNotInitialized);
    }
    if pair.factory != *factory_key {
        return Err(DexError::InvalidPairFactory);
    }
    if pair.token0_account != *token0_account {
        return Err(DexError::InvalidTokenAccount);
    }
    if pair.token1_account != *token1_account {
        return Err(DexError::InvalidTokenAccount);
    }
    if pair.lp_mint != *lp_mint {
        return Err(DexError::InvalidLpMint);
    }
    Ok(())
}

/// Computes [`holder_checked`].
pub fn check_holder(account: &TokenAccountMeta, mint: &Address, owner: &Address) -> (checked:
    Result<(), DexError>)
    ensures
        checked == holder_checked(*account, *mint, *owner),
{
    if account.mint != *mint {
        return Err(DexError::InvalidTokenAccount);
    }
    if account.owner != *owner {
        return Err(DexError::InvalidTokenOwner);
    }
    Ok(())
}

} // verus!
