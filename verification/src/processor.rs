//! The operations of the exchange.
//!
//! Each operation checks its accounts, computes, and only then changes the
//! records it was given: an operation that fails changes nothing. The
//! operations that move tokens return the custody instructions for the caller
//! to execute.

use vstd::prelude::*;
use crate::accounts::{
    check_holder, check_liquidity_accounts, holder_checked, liquidity_accounts_checked,
    then_checked, AddLiquidity, ConfigurePair, CreatePairAccount, CreateTokenAccounts, Initialize,
    RemoveLiquidity, Swap,
};
use crate::address::Address;
use crate::error::DexError;
use crate::events::{
    LiquidityAddedEvent, LiquidityRemovedEvent, PairCreatedEvent, Settlement, SwapEvent,
    TokenInstruction,
};
use crate::liquidity::{Deposit, Withdrawal, MINIMUM_LIQUIDITY};
use crate::state::{Factory, PairAccount};

verus! {

impl Factory {
    /// A registry owned by `owner`, with no pair and no protocol fee.
    pub open spec fn fresh(owner: Address) -> Factory {
        Factory {
            owner,
            pair_count: 0,
            fee_to: Address::zero(),
            fee_on: false,
            last_pair: Address::zero(),
        }
    }

    /// Whether `requested_owner` may create and configure pairs.
    pub open spec fn authorizes(self, requested_owner: Address) -> bool {
        self.owner == requested_owner
    }

    /// Refuses anyone but the owner of the registry.
    pub fn authorize_pair_creation(&self, requested_owner: &Address) -> (authorized: Result<
        (),
        DexError,
    >)
        ensures
            self.authorizes(*requested_owner) ==> authorized == Ok::<(), DexError>(()),
            !self.authorizes(*requested_owner) ==> authorized == Err::<(), DexError>(
                DexError::NotFactoryOwner,
            ),
    {
        if self.owner == *requested_owner {
            Ok(())
        } else {
            Err(DexError::NotFactoryOwner)
        }
    }
}

impl PairAccount {
    /// A pair that has been allocated and not configured: it names no asset
    /// and holds nothing.
    pub open spec fn blank(bump: u8, authority_bump: u8) -> PairAccount {
        PairAccount {
            factory: Address::zero(),
            token0: Address::zero(),
            token1: Address::zero(),
            reserve0: 0,
            reserve1: 0,
            token0_account: Address::zero(),
            token1_account: Address::zero(),
            lp_mint: Address::zero(),
            total_supply: 0,
            bump,
            authority_bump,
            is_initialized: false,
        }
    }
}

/// The two assets in canonical order: the one whose identity comes first in
/// lexicographic byte order, then the other.
pub open spec fn canonical_order(x: Address, y: Address) -> (Address, Address) {
    if x.precedes(y) {
        (x, y)
    } else {
        (y, x)
    }
}

impl CreatePairAccount {
    /// The accounts after the pair record has been allocated, or why the
    /// allocation is refused.
    pub open spec fn outcome(self) -> Result<CreatePairAccount, DexError> {
        if self.pair.is_initialized {
            Err(DexError::PairExists)
        } else if !self.factory.authorizes(self.owner) {
            Err(DexError::NotFactoryOwner)
        } else if self.token0 == self.token1 {
            Err(DexError::IdenticalTokens)
        } else {
            Ok(
                CreatePairAccount {
                    pair: PairAccount::blank(self.bumps.pair, self.bumps.authority),
                    ..self
                },
            )
        }
    }
}

impl ConfigurePair {
    /// Whether the asset given first is the one to store first.
    pub open spec fn given_in_order(self) -> bool {
        self.token0.precedes(self.token1)
    }

    /// The pair as a successful configuration leaves it: the two assets in
    /// canonical order, each custody account beside the asset whose reserve
    /// it holds, no reserves and no shares.
    pub open spec fn configured_pair(self) -> PairAccount {
        let (token0, token1) = canonical_order(self.token0, self.token1);
        PairAccount {
            factory: self.factory_key,
            token0,
            token1,
            reserve0: 0,
            reserve1: 0,
            token0_account: if self.given_in_order() {
                self.token0_account
            } else {
                self.token1_account
            },
            token1_account: if self.given_in_order() {
                self.token1_account
            } else {
                self.token0_account
            },
            lp_mint: self.lp_mint,
            total_supply: 0,
            is_initialized: true,
            ..self.pair
        }
    }

    /// The accounts after the pair has been configured and the notification
    /// of it, or why the configuration is refused.
    ///
    /// `token0_account` is taken to hold `token0` and `token1_account` to
    /// hold `token1`, whichever way round the two assets are given.
    pub open spec fn outcome(self) -> Result<(ConfigurePair, PairCreatedEvent), DexError> {
        if self.pair.is_initialized {
            Err(DexError::PairAlreadyInitialized)
        } else if !self.factory.authorizes(self.owner) {
            Err(DexError::NotFactoryOwner)
        } else if self.token0 == self.token1 {
            Err(DexError::IdenticalTokens)
        } else if self.factory.pair_count == u64::MAX {
            Err(DexError::ArithmeticOverflow)
        } else {
            let pair = self.configured_pair();
            let pair_count = (self.factory.pair_count + 1) as u64;
            Ok(
                (
                    ConfigurePair {
                        pair,
                        factory: Factory { last_pair: self.pair_key, pair_count, ..self.factory },
                        ..self
                    },
                    PairCreatedEvent {
                        token0: pair.token0,
                        token1: pair.token1,
                        pair: self.pair_key,
                        pair_count,
                    },
                ),
            )
        }
    }
}

impl AddLiquidity {
    /// The checks on the accounts of a deposit, in the order in which they
    /// are made.
    pub open spec fn checked(self) -> Result<(), DexError> {
        then_checked(
            liquidity_accounts_checked(
                self.factory_key,
                self.factory,
                self.pair,
                self.token0_account,
                self.token1_account,
                self.lp_mint,
                self.owner,
            ),
            then_checked(
                holder_checked(self.user_token0, self.pair.token0, self.sender),
                then_checked(
                    holder_checked(self.user_token1, self.pair.token1, self.sender),
                    then_checked(
                        holder_checked(self.liquidity_to, self.lp_mint, self.sender),
                        if self.burn_account.mint != self.lp_mint {
                            Err(DexError::InvalidTokenAccount)
                        } else {
                            Ok(())
                        },
                    ),
                ),
            ),
        )
    }

    /// The custody instructions of a deposit: both amounts move from the
    /// depositor into custody, then the locked minimum is minted out of reach
    /// if the deposit is the first one, then the depositor's shares are
    /// minted.
    pub open spec fn instructions(self, deposit: Deposit) -> Seq<TokenInstruction> {
        let transfers = seq![
            TokenInstruction::Transfer {
                from: self.user_token0.key,
                to: self.token0_account,
                authority: self.sender,
                amount: deposit.amount0,
            },
            TokenInstruction::Transfer {
                from: self.user_token1.key,
                to: self.token1_account,
                authority: self.sender,
                amount: deposit.amount1,
            },
        ];
        let locked = TokenInstruction::MintTo {
            mint: self.lp_mint,
            to: self.burn_account.key,
            authority: self.authority,
            amount: MINIMUM_LIQUIDITY,
        };
        let minted = TokenInstruction::MintTo {
            mint: self.lp_mint,
            to: self.liquidity_to.key,
            authority: self.authority,
            amount: deposit.liquidity,
        };
        if self.pair.reserve0 == 0 && self.pair.reserve1 == 0 {
            transfers.push(locked).push(minted)
        } else {
            transfers.push(minted)
        }
    }

    /// The accounts after a deposit, its custody instructions and its
    /// notification, or why the deposit is refused.
    pub open spec fn outcome(self, desired0: nat, desired1: nat, min0: nat, min1: nat) -> Result<
        (AddLiquidity, Seq<TokenInstruction>, LiquidityAddedEvent),
        DexError,
    > {
        match self.checked() {
            Err(e) => Err(e),
            Ok(_) => match self.pair.deposit_outcome(desired0, desired1, min0, min1) {
                Err(e) => Err(e),
                Ok((pair, deposit)) => Ok(
                    (
                        AddLiquidity { pair, ..self },
                        self.instructions(deposit),
                        LiquidityAddedEvent {
                            sender: self.sender,
                            amount0: deposit.amount0,
                            amount1: deposit.amount1,
                            liquidity: deposit.liquidity,
                        },
                    ),
                ),
            },
        }
    }
}

impl RemoveLiquidity {
    /// The checks on the accounts of a withdrawal, in the order in which they
    /// are made.
    pub open spec fn checked(self) -> Result<(), DexError> {
        then_checked(
            liquidity_accounts_checked(
                self.factory_key,
                self.factory,
                self.pair,
                self.token0_account,
                self.token1_account,
                self.lp_mint,
                self.owner,
            ),
            then_checked(
                holder_checked(self.token0_to, self.pair.token0, self.sender),
                then_checked(
                    holder_checked(self.token1_to, self.pair.token1, self.sender),
                    holder_checked(self.liquidity_from, self.lp_mint, self.sender),
                ),
            ),
        )
    }

    /// The custody instructions of a withdrawal: the shares are burned
    /// first, then both amounts move out of custody to the withdrawer.
    pub open spec fn instructions(self, withdrawal: Withdrawal) -> Seq<TokenInstruction> {
        seq![
            TokenInstruction::Burn {
                mint: self.lp_mint,
                from: self.liquidity_from.key,
                authority: self.sender,
                amount: withdrawal.liquidity,
            },
            TokenInstruction::Transfer {
                from: self.token0_account,
                to: self.token0_to.key,
                authority: self.authority,
                amount: withdrawal.amount0,
            },
            TokenInstruction::Transfer {
                from: self.token1_account,
                to: self.token1_to.key,
                authority: self.authority,
                amount: withdrawal.amount1,
            },
        ]
    }

    /// The accounts after a withdrawal, its custody instructions and its
    /// notification, or why the withdrawal is refused.
    pub open spec fn outcome(self, liquidity: nat, min0: nat, min1: nat) -> Result<
        (RemoveLiquidity, Seq<TokenInstruction>, LiquidityRemovedEvent),
        DexError,
    > {
        match self.checked() {
            Err(e) => Err(e),
            Ok(_) => match self.pair.withdrawal_outcome(liquidity, min0, min1) {
                Err(e) => Err(e),
                Ok((pair, withdrawal)) => Ok(
                    (
                        RemoveLiquidity { pair, ..self },
                        self.instructions(withdrawal),
                        LiquidityRemovedEvent {
                            sender: self.sender,
                            amount0: withdrawal.amount0,
                            amount1: withdrawal.amount1,
                            liquidity: withdrawal.liquidity,
                        },
                    ),
                ),
            },
        }
    }
}

impl Swap {
    /// Whether `mint` is one of the two assets of the pair.
    pub open spec fn trades(self, mint: Address) -> bool {
        mint == self.pair.token0 || mint == self.pair.token1
    }

    /// The checks on the accounts of a swap, in the order in which they are
    /// made.
    pub open spec fn checked(self) -> Result<(), DexError> {
        if !self.pair.is_initialized {
            Err(DexError::PairNotInitialized)
        } else if self.pair.token0_account != self.token0_account || self.pair.token1_account
            != self.token1_account {
            Err(DexError::InvalidTokenAccount)
        } else if self.token_in.owner != self.sender {
            Err(DexError::InvalidTokenOwner)
        } else if !self.trades(self.token_in.mint) {
            Err(DexError::InvalidTokenAccount)
        } else if self.token_out.owner != self.sender {
            Err(DexError::InvalidTokenOwner)
        } else if !self.trades(self.token_out.mint) {
            Err(DexError::InvalidTokenAccount)
        } else if self.token_out.mint == self.token_in.mint {
            Err(DexError::IdenticalTokens)
        } else {
            Ok(())
        }
    }

    /// Whether the asset paid in is the first asset of the pair.
    pub open spec fn token0_in(self) -> bool {
        self.token_in.mint == self.pair.token0
    }

    /// The custody instructions of a swap: the input moves from the trader
    /// into the custody of its asset, then the output moves out of the custody
    /// of the other asset to the trader.
    pub open spec fn instructions(self, amount_in: u64, amount_out: u64) -> Seq<TokenInstruction> {
        seq![
            TokenInstruction::Transfer {
                from: self.token_in.key,
                to: if self.token0_in() {
                    self.token0_account
                } else {
                    self.token1_account
                },
                authority: self.sender,
                amount: amount_in,
            },
            TokenInstruction::Transfer {
                from: if self.token0_in() {
                    self.token1_account
                } else {
                    self.token0_account
                },
                to: self.token_out.key,
                authority: self.authority,
                amount: amount_out,
            },
        ]
    }

    /// The accounts after a swap, its custody instructions and its
    /// notification, or why the swap is refused.
    pub open spec fn outcome(self, amount_in: nat, min_out: nat) -> Result<
        (Swap, Seq<TokenInstruction>, SwapEvent),
        DexError,
    > {
        match self.checked() {
            Err(e) => Err(e),
            Ok(_) => match self.pair.swap_outcome(self.token0_in(), amount_in, min_out) {
                Err(e) => Err(e),
                Ok((pair, amount_out)) => Ok(
                    (
                        Swap { pair, ..self },
                        self.instructions(amount_in as u64, amount_out),
                        SwapEvent {
                            sender: self.sender,
                            amount_in: amount_in as u64,
                            amount_out,
                            is_token0_in: self.token0_in(),
                        },
                    ),
                ),
            },
        }
    }
}

/// Creates the registry: `owner` owns it, it counts no pair, charges no
/// protocol fee and names no pair as the last one.
pub fn initialize(ctx: &mut Initialize) -> (done: Result<(), DexError>)
    ensures
        done == Ok::<(), DexError>(()),
        final(ctx).factory == Factory::fresh(old(ctx).owner),
        final(ctx).owner == old(ctx).owner,
{
    ctx.factory.owner = ctx.owner;
    ctx.factory.pair_count = 0;
    ctx.factory.fee_to = Address::default();
    ctx.factory.fee_on = false;
    ctx.factory.last_pair = Address::default();
    Ok(())
}

/// First step of the creation of a pair: refuses a pair of one asset with
/// itself. The custody accounts themselves are opened by the caller.
pub fn create_token_accounts(ctx: &CreateTokenAccounts) -> (done: Result<(), DexError>)
    ensures
        ctx.token0 == ctx.token1 ==> done == Err::<(), DexError>(DexError::IdenticalTokens),
        ctx.token0 != ctx.token1 ==> done == Ok::<(), DexError>(()),
{
    if ctx.token0 == ctx.token1 {
        return Err(DexError::IdenticalTokens);
    }
    Ok(())
}

/// Second step of the creation of a pair: allocates the pair record, blank
/// and not configured, with the bumps of its derived addresses.
///
/// Refused, in this order: a record that holds a configured pair, which is
/// never blanked; anyone but the owner of the registry; a pair of one asset
/// with itself.
pub fn create_pair_account(ctx: &mut CreatePairAccount) -> (done: Result<(), DexError>)
    ensures
        match old(ctx).outcome() {
            Ok(next) => done == Ok::<(), DexError>(()) && *final(ctx) == next,
            Err(e) => done == Err::<(), DexError>(e) && *final(ctx) == *old(ctx),
        },
        done is Ok ==> !final(ctx).pair.is_initialized,
        done is Ok ==> final(ctx).pair.supply_matches_reserves(),
{
    if ctx.pair.is_initialized {
        return Err(DexError::PairExists);
    }
    ctx.factory.authorize_pair_creation(&ctx.owner)?;
    if ctx.token0 == ctx.token1 {
        return Err(DexError::IdenticalTokens);
    }
    ctx.pair = PairAccount {
        factory: Address::default(),
        token0: Address::default(),
        token1: Address::default(),
        reserve0: 0,
        reserve1: 0,
        token0_account: Address::default(),
        token1_account: Address::default(),
        lp_mint: Address::default(),
        total_supply: 0,
        bump: ctx.bumps.pair,
        authority_bump: ctx.bumps.authority,
        is_initialized: false,
    };
    Ok(())
}

/// Configures a pair, once: records the two assets in canonical order, each
/// custody account beside its asset, and the share mint; empties reserves
/// and supply, marks the pair configured, and counts it in the registry.
///
/// Refused, in this order: a pair that has been configured, whoever asks;
/// anyone but the owner of the registry; a pair of one asset with itself; a
/// registry whose counter is full.
pub fn configure_pair(ctx: &mut ConfigurePair) -> (created: Result<PairCreatedEvent, DexError>)
    ensures
        match old(ctx).outcome() {
            Ok((next, event)) => created == Ok::<PairCreatedEvent, DexError>(event) && *final(ctx)
                == next,
            Err(e) => created == Err::<PairCreatedEvent, DexError>(e) && *final(ctx) == *old(ctx),
        },
        created is Ok ==> final(ctx).pair.is_initialized,
        created is Ok ==> final(ctx).pair.supply_matches_reserves(),
        created is Ok ==> final(ctx).pair.token0 != final(ctx).pair.token1,
        created is Ok ==> final(ctx).pair.canonical(),
{
    if ctx.pair.is_initialized {
        return Err(DexError::PairAlreadyInitialized);
    }
    ctx.factory.authorize_pair_creation(&ctx.owner)?;
    if ctx.token0 == ctx.token1 {
        return Err(DexError::IdenticalTokens);
    }
    let pair_count = match ctx.factory.pair_count.checked_add(1) {
        Some(count) => count,
        None => { return Err(DexError::ArithmeticOverflow); },
    };
    proof {
        crate::address::lemma_order_total(ctx.token0, ctx.token1);
    }
    let (token0, token1, token0_account, token1_account) = if ctx.token0 < ctx.token1 {
        (ctx.token0, ctx.token1, ctx.token0_account, ctx.token1_account)
    } else {
        (ctx.token1, ctx.token0, ctx.token1_account, ctx.token0_account)
    };
    ctx.pair.factory = ctx.factory_key;
    ctx.pair.token0 = token0;
    ctx.pair.token1 = token1;
    ctx.pair.reserve0 = 0;
    ctx.pair.reserve1 = 0;
    ctx.pair.token0_account = token0_account;
    ctx.pair.token1_account = token1_account;
    ctx.pair.lp_mint = ctx.lp_mint;
    ctx.pair.total_supply = 0;
    ctx.pair.is_initialized = true;
    ctx.factory.last_pair = ctx.pair_key;
    ctx.factory.pair_count = pair_count;
    Ok(PairCreatedEvent { token0, token1, pair: ctx.pair_key, pair_count })
}

impl AddLiquidity {
    /// Computes [`AddLiquidity::checked`].
    pub fn check(&self) -> (checked: Result<(), DexError>)
        ensures
            checked == self.checked(),
    {
        check_liquidity_accounts(
            &self.factory_key,
            &self.factory,
            &self.pair,
            &self.token0_account,
            &self.token1_account,
            &self.lp_mint,
            &self.owner,
        )?;
        check_holder(&self.user_token0, &self.pair.token0, &self.sender)?;
        check_holder(&self.user_token1, &self.pair.token1, &self.sender)?;
        check_holder(&self.liquidity_to, &self.lp_mint, &self.sender)?;
        if self.burn_account.mint != self.lp_mint {
            return Err(DexError::InvalidTokenAccount);
        }
        Ok(())
    }
}

impl RemoveLiquidity {
    /// Computes [`RemoveLiquidity::checked`].
    pub fn check(&self) -> (checked: Result<(), DexError>)
        ensures
            checked == self.checked(),
    {
        check_liquidity_accounts(
            &self.factory_key,
            &self.factory,
            &self.pair,
            &self.token0_account,
            &self.token1_account,
            &self.lp_mint,
            &self.owner,
        )?;
        check_holder(&self.token0_to, &self.pair.token0, &self.sender)?;
        check_holder(&self.token1_to, &self.pair.token1, &self.sender)?;
        check_holder(&self.liquidity_from, &self.lp_mint, &self.sender)
    }
}

impl Swap {
    /// Computes [`Swap::checked`].
    pub fn check(&self) -> (checked: Result<(), DexError>)
        ensures
            checked == self.checked(),
    {
        if !self.pair.is_initialized {
            return Err(DexError::PairNotInitialized);
        }
        if self.pair.token0_account != self.token0_account {
            return Err(DexError::InvalidTokenAccount);
        }
        if self.pair.token1_account != self.token1_account {
            return Err(DexError::InvalidTokenAccount);
        }
        if self.token_in.owner != self.sender {
            return Err(DexError::InvalidTokenOwner);
        }
        if !(self.token_in.mint == self.pair.token0 || self.token_in.mint == self.pair.token1) {
            return Err(DexError::InvalidTokenAccount);
        }
        if self.token_out.owner != self.sender {
            return Err(DexError::InvalidTokenOwner);
        }
        if !(self.token_out.mint == self.pair.token0 || self.token_out.mint == self.pair.token1) {
            return Err(DexError::InvalidTokenAccount);
        }
        if self.token_out.mint == self.token_in.mint {
            return Err(DexError::IdenticalTokens);
        }
        Ok(())
    }
}

/// Takes a deposit of both assets into a configured pair and mints shares
/// for it.
///
/// Into an empty pair both desired amounts go in full, and the shares are the
/// floor of the square root of their product, of which
/// [`MINIMUM_LIQUIDITY`] are locked for good and the rest go to the depositor.
/// Into a pair that holds reserves the amounts go at the ratio of the
/// reserves, one desired amount in full and of the other asset no more than
/// desired, and the shares are in proportion to the supply, floored.
pub fn add_liquidity(
    ctx: &mut AddLiquidity,
    amount0_desired: u128,
    amount1_desired: u128,
    amount0_min: u128,
    amount1_min: u128,
) -> (settled: Result<Settlement<LiquidityAddedEvent>, DexError>)
    ensures
        match old(ctx).outcome(
            amount0_desired as nat,
            amount1_desired as nat,
            amount0_min as nat,
            amount1_min as nat,
        ) {
            Ok((next, instructions, event)) => {
                &&& settled matches Ok(settlement)
                &&& settlement.instructions@ == instructions
                &&& settlement.event == event
                &&& *final(ctx) == next
            },
            Err(e) => {
                &&& settled matches Err(refusal)
                &&& refusal == e
                &&& *final(ctx) == *old(ctx)
            },
        },
        old(ctx).pair.supply_matches_reserves() ==> final(ctx).pair.supply_matches_reserves(),
{
    ctx.check()?;
    let first = ctx.pair.reserve0 == 0 && ctx.pair.reserve1 == 0;
    let deposit = ctx.pair.deposit(amount0_desired, amount1_desired, amount0_min, amount1_min)?;
    let mut instructions: Vec<TokenInstruction> = Vec::new();
    instructions.push(
        TokenInstruction::Transfer {
            from: ctx.user_token0.key,
            to: ctx.token0_account,
            authority: ctx.sender,
            amount: deposit.amount0,
        },
    );
    instructions.push(
        TokenInstruction::Transfer {
            from: ctx.user_token1.key,
            to: ctx.token1_account,
            authority: ctx.sender,
            amount: deposit.amount1,
        },
    );
    if first {
        instructions.push(
            TokenInstruction::MintTo {
                mint: ctx.lp_mint,
                to: ctx.burn_account.key,
                authority: ctx.authority,
                amount: MINIMUM_LIQUIDITY,
            },
        );
    }
    instructions.push(
        TokenInstruction::MintTo {
            mint: ctx.lp_mint,
            to: ctx.liquidity_to.key,
            authority: ctx.authority,
            amount: deposit.liquidity,
        },
    );
    assert(instructions@ =~= old(ctx).instructions(deposit));
    Ok(
        Settlement {
            instructions,
            event: LiquidityAddedEvent {
                sender: ctx.sender,
                amount0: deposit.amount0,
                amount1: deposit.amount1,
                liquidity: deposit.liquidity,
            },
        },
    )
}

/// Redeems shares of a configured pair for the same fraction of each
/// reserve, floored. The shares are burned before anything is paid out.
pub fn remove_liquidity(
    ctx: &mut RemoveLiquidity,
    liquidity: u128,
    amount0_min: u128,
    amount1_min: u128,
) -> (settled: Result<Settlement<LiquidityRemovedEvent>, DexError>)
    ensures
        match old(ctx).outcome(liquidity as nat, amount0_min as nat, amount1_min as nat) {
            Ok((next, instructions, event)) => {
                &&& settled matches Ok(settlement)
                &&& settlement.instructions@ == instructions
                &&& settlement.event == event
                &&& *final(ctx) == next
            },
            Err(e) => {
                &&& settled matches Err(refusal)
                &&& refusal == e
                &&& *final(ctx) == *old(ctx)
            },
        },
        old(ctx).pair.supply_matches_reserves() ==> final(ctx).pair.supply_matches_reserves(),
{
    ctx.check()?;
    let withdrawal = ctx.pair.withdraw(liquidity, amount0_min, amount1_min)?;
    let mut instructions: Vec<TokenInstruction> = Vec::new();
    instructions.push(
        TokenInstruction::Burn {
            mint: ctx.lp_mint,
            from: ctx.liquidity_from.key,
            authority: ctx.sender,
            amount: withdrawal.liquidity,
        },
    );
    instructions.push(
        TokenInstruction::Transfer {
            from: ctx.token0_account,
            to: ctx.token0_to.key,
            authority: ctx.authority,
            amount: withdrawal.amount0,
        },
    );
    instructions.push(
        TokenInstruction::Transfer {
            from: ctx.token1_account,
            to: ctx.token1_to.key,
            authority: ctx.authority,
            amount: withdrawal.amount1,
        },
    );
    assert(instructions@ =~= old(ctx).instructions(withdrawal));
    Ok(
        Settlement {
            instructions,
            event: LiquidityRemovedEvent {
                sender: ctx.sender,
                amount0: withdrawal.amount0,
                amount1: withdrawal.amount1,
                liquidity: withdrawal.liquidity,
            },
        },
    )
}

/// Swaps `amount_in` of the asset held in `token_in` for the other asset of
/// the pair, at the constant-product price after a fee of 0.3% of the input.
/// The product of the reserves never decreases.
pub fn swap(ctx: &mut Swap, amount_in: u128, amount_out_min: u128) -> (settled: Result<
    Settlement<SwapEvent>,
    DexError,
>)
    ensures
        match old(ctx).outcome(amount_in as nat, amount_out_min as nat) {
            Ok((next, instructions, event)) => {
                &&& settled matches Ok(settlement)
                &&& settlement.instructions@ == instructions
                &&& settlement.event == event
                &&& *final(ctx) == next
            },
            Err(e) => {
                &&& settled matches Err(refusal)
                &&& refusal == e
                &&& *final(ctx) == *old(ctx)
            },
        },
        settled is Ok ==> final(ctx).pair.product() >= old(ctx).pair.product(),
        old(ctx).pair.supply_matches_reserves() ==> final(ctx).pair.supply_matches_reserves(),
{
    ctx.check()?;
    let is_token0_in = if ctx.token_in.mint == ctx.pair.token0 {
        true
    } else if ctx.token_in.mint == ctx.pair.token1 {
        false
    } else {
        return Err(DexError::InvalidTokenAccount);
    };
    let amount_out = ctx.pair.trade(is_token0_in, amount_in, amount_out_min)?;
    let amount_in = amount_in as u64;
    let mut instructions: Vec<TokenInstruction> = Vec::new();
    instructions.push(
        TokenInstruction::Transfer {
            from: ctx.token_in.key,
            to: if is_token0_in {
                ctx.token0_account
            } else {
                ctx.token1_account
            },
            authority: ctx.sender,
            amount: amount_in,
        },
    );
    instructions.push(
        TokenInstruction::Transfer {
            from: if is_token0_in {
                ctx.token1_account
            } else {
                ctx.token0_account
            },
            to: ctx.token_out.key,
            authority: ctx.authority,
            amount: amount_out,
        },
    );
    assert(instructions@ =~= old(ctx).instructions(amount_in, amount_out));
    Ok(
        Settlement {
            instructions,
            event: SwapEvent { sender: ctx.sender, amount_in, amount_out, is_token0_in },
        },
    )
}

} // verus!
