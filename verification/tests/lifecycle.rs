use solana_dex::{
    configure_pair, create_pair_account, create_token_accounts, initialize, Address,
    ConfigurePair, CreatePairAccount, CreatePairAccountBumps, CreateTokenAccounts, DexError,
    Factory, Initialize, PairAccount, PairCreatedEvent,
};

fn named(n: u8) -> Address {
    Address::new_from_array([n; 32])
}

fn registry(owner: Address, pair_count: u64) -> Factory {
    Factory {
        owner,
        pair_count,
        fee_to: Address::default(),
        fee_on: false,
        last_pair: Address::default(),
    }
}

fn unconfigured_pair() -> PairAccount {
    PairAccount {
        factory: Address::default(),
        token0: Address::default(),
        token1: Address::default(),
        reserve0: 0,
        reserve1: 0,
        token0_account: Address::default(),
        token1_account: Address::default(),
        lp_mint: Address::default(),
        total_supply: 0,
        bump: 254,
        authority_bump: 253,
        is_initialized: false,
    }
}

fn configuration(token0: Address, token1: Address) -> ConfigurePair {
    ConfigurePair {
        factory_key: named(1),
        factory: registry(named(9), 3),
        pair_key: named(2),
        pair: unconfigured_pair(),
        token0,
        token1,
        lp_mint: named(6),
        token0_account: named(4),
        token1_account: named(5),
        owner: named(9),
    }
}

#[test]
fn initialize_creates_an_empty_registry() {
    let mut ctx = Initialize {
        factory: Factory {
            owner: named(3),
            pair_count: 77,
            fee_to: named(4),
            fee_on: true,
            last_pair: named(5),
        },
        owner: named(9),
    };
    assert_eq!(initialize(&mut ctx), Ok(()));
    assert_eq!(ctx.factory, registry(named(9), 0));
    assert_eq!(ctx.owner, named(9));
    assert!(!ctx.factory.fee_on);
}

#[test]
fn record_sizes() {
    assert_eq!(Factory::LEN, 113);
    assert_eq!(PairAccount::LEN, 227);
}

#[test]
fn only_the_owner_is_authorized() {
    let factory = registry(named(9), 0);
    assert_eq!(factory.authorize_pair_creation(&named(9)), Ok(()));
    assert_eq!(factory.authorize_pair_creation(&named(8)), Err(DexError::NotFactoryOwner));
    assert_eq!(
        factory.authorize_pair_creation(&Address::default()),
        Err(DexError::NotFactoryOwner)
    );
}

#[test]
fn create_token_accounts_refuses_identical_assets() {
    let same = CreateTokenAccounts { token0: named(2), token1: named(2) };
    assert_eq!(create_token_accounts(&same), Err(DexError::IdenticalTokens));
    let different = CreateTokenAccounts { token0: named(2), token1: named(3) };
    assert_eq!(create_token_accounts(&different), Ok(()));
    let reversed = CreateTokenAccounts { token0: named(3), token1: named(2) };
    assert_eq!(create_token_accounts(&reversed), Ok(()));
}

#[test]
fn create_pair_account_allocates_a_blank_pair() {
    let mut stale = unconfigured_pair();
    stale.reserve0 = 5;
    stale.total_supply = 9;
    stale.token0 = named(7);
    let mut ctx = CreatePairAccount {
        factory: registry(named(9), 0),
        pair: stale,
        token0: named(2),
        token1: named(3),
        owner: named(9),
        bumps: CreatePairAccountBumps { pair: 250, authority: 249 },
    };
    assert_eq!(create_pair_account(&mut ctx), Ok(()));
    let mut blank = unconfigured_pair();
    blank.bump = 250;
    blank.authority_bump = 249;
    assert_eq!(ctx.pair, blank);
    assert!(!ctx.pair.is_initialized);
    assert_eq!(ctx.pair.reserve0, 0);
    assert_eq!(ctx.pair.reserve1, 0);
    assert_eq!(ctx.pair.total_supply, 0);
    assert_eq!(ctx.factory, registry(named(9), 0));
}

#[test]
fn create_pair_account_refusals() {
    let good = CreatePairAccount {
        factory: registry(named(9), 0),
        pair: unconfigured_pair(),
        token0: named(2),
        token1: named(3),
        owner: named(9),
        bumps: CreatePairAccountBumps { pair: 250, authority: 249 },
    };

    let mut same = good;
    same.token1 = named(2);
    let before = same;
    assert_eq!(create_pair_account(&mut same), Err(DexError::IdenticalTokens));
    assert_eq!(same, before);

    let mut stranger = good;
    stranger.owner = named(8);
    let before = stranger;
    assert_eq!(create_pair_account(&mut stranger), Err(DexError::NotFactoryOwner));
    assert_eq!(stranger, before);

    let mut both = good;
    both.token1 = named(2);
    both.owner = named(8);
    assert_eq!(create_pair_account(&mut both), Err(DexError::NotFactoryOwner));
}

#[test]
fn create_pair_account_never_blanks_a_configured_pair() {
    let mut configured = configuration(named(2), named(3));
    assert!(configure_pair(&mut configured).is_ok());
    let mut pair = configured.pair;
    pair.reserve0 = 20_000;
    pair.reserve1 = 80_000;
    pair.total_supply = 40_000;
    let mut ctx = CreatePairAccount {
        factory: configured.factory,
        pair,
        token0: named(2),
        token1: named(3),
        owner: named(9),
        bumps: CreatePairAccountBumps { pair: 250, authority: 249 },
    };
    let before = ctx;
    assert_eq!(create_pair_account(&mut ctx), Err(DexError::PairExists));
    assert_eq!(ctx, before);
    assert!(ctx.pair.is_initialized);
    assert_eq!(ctx.pair.reserve0, 20_000);

    ctx.owner = named(8);
    ctx.token1 = named(2);
    assert_eq!(create_pair_account(&mut ctx), Err(DexError::PairExists));
}

#[test]
fn configure_stores_the_smaller_asset_first() {
    let mut ctx = configuration(named(2), named(3));
    let event = configure_pair(&mut ctx);
    assert_eq!(
        event,
        Ok(PairCreatedEvent { token0: named(2), token1: named(3), pair: named(2), pair_count: 4 })
    );
    assert_eq!(ctx.pair.token0, named(2));
    assert_eq!(ctx.pair.token1, named(3));

    let mut reversed = configuration(named(3), named(2));
    reversed.token0_account = named(5);
    reversed.token1_account = named(4);
    let event = configure_pair(&mut reversed);
    assert_eq!(
        event,
        Ok(PairCreatedEvent { token0: named(2), token1: named(3), pair: named(2), pair_count: 4 })
    );
    assert_eq!(reversed.pair.token0, named(2));
    assert_eq!(reversed.pair.token1, named(3));
    assert_eq!(reversed.pair.token0_account, named(4));
    assert_eq!(reversed.pair.token1_account, named(5));
    assert_eq!(reversed.pair, ctx.pair);
    assert_eq!(reversed.factory, ctx.factory);
}

#[test]
fn configure_keeps_each_custody_account_beside_its_asset() {
    let mut in_order = configuration(named(2), named(3));
    assert!(configure_pair(&mut in_order).is_ok());
    assert_eq!(in_order.pair.token0, named(2));
    assert_eq!(in_order.pair.token0_account, named(4));
    assert_eq!(in_order.pair.token1, named(3));
    assert_eq!(in_order.pair.token1_account, named(5));

    let mut reversed = configuration(named(3), named(2));
    assert!(configure_pair(&mut reversed).is_ok());
    assert_eq!(reversed.pair.token0, named(2));
    assert_eq!(reversed.pair.token0_account, named(5));
    assert_eq!(reversed.pair.token1, named(3));
    assert_eq!(reversed.pair.token1_account, named(4));
    assert_eq!(reversed.token0_account, named(4));
    assert_eq!(reversed.token1_account, named(5));
}

#[test]
fn configure_refuses_identical_assets() {
    let mut ctx = configuration(named(2), named(2));
    let before = ctx;
    assert_eq!(configure_pair(&mut ctx), Err(DexError::IdenticalTokens));
    assert_eq!(ctx, before);
    assert!(!ctx.pair.is_initialized);
    assert_eq!(ctx.factory.pair_count, 3);

    let mut stranger = configuration(named(2), named(2));
    stranger.owner = named(8);
    let before = stranger;
    assert_eq!(configure_pair(&mut stranger), Err(DexError::NotFactoryOwner));
    assert_eq!(stranger, before);

    let mut full = configuration(named(2), named(2));
    full.factory.pair_count = u64::MAX;
    assert_eq!(configure_pair(&mut full), Err(DexError::IdenticalTokens));

    let mut configured = configuration(named(2), named(2));
    configured.pair.is_initialized = true;
    assert_eq!(configure_pair(&mut configured), Err(DexError::PairAlreadyInitialized));

    let mut zero = configuration(Address::default(), Address::default());
    assert_eq!(configure_pair(&mut zero), Err(DexError::IdenticalTokens));
}

#[test]
fn configure_orders_by_the_first_differing_byte() {
    let mut x = [9u8; 32];
    x[0] = 1;
    x[31] = 255;
    let mut y = [0u8; 32];
    y[0] = 2;
    let x = Address::new_from_array(x);
    let y = Address::new_from_array(y);
    let mut ctx = configuration(y, x);
    assert!(configure_pair(&mut ctx).is_ok());
    assert_eq!(ctx.pair.token0, x);
    assert_eq!(ctx.pair.token1, y);
    assert_eq!(ctx.pair.token0_account, named(5));
    assert_eq!(ctx.pair.token1_account, named(4));
}

#[test]
fn configure_fills_the_pair_and_counts_it() {
    let mut ctx = configuration(named(3), named(2));
    assert!(configure_pair(&mut ctx).is_ok());
    assert_eq!(
        ctx.pair,
        PairAccount {
            factory: named(1),
            token0: named(2),
            token1: named(3),
            reserve0: 0,
            reserve1: 0,
            token0_account: named(5),
            token1_account: named(4),
            lp_mint: named(6),
            total_supply: 0,
            bump: 254,
            authority_bump: 253,
            is_initialized: true,
        }
    );
    assert_eq!(
        ctx.factory,
        Factory {
            owner: named(9),
            pair_count: 4,
            fee_to: Address::default(),
            fee_on: false,
            last_pair: named(2),
        }
    );
}

#[test]
fn configure_resets_balances() {
    let mut ctx = configuration(named(2), named(3));
    ctx.pair.reserve0 = 11;
    ctx.pair.reserve1 = 12;
    ctx.pair.total_supply = 13;
    assert!(configure_pair(&mut ctx).is_ok());
    assert_eq!(ctx.pair.reserve0, 0);
    assert_eq!(ctx.pair.reserve1, 0);
    assert_eq!(ctx.pair.total_supply, 0);
}

#[test]
fn configure_succeeds_once() {
    let mut ctx = configuration(named(2), named(3));
    assert!(configure_pair(&mut ctx).is_ok());
    let configured = ctx;
    assert_eq!(configure_pair(&mut ctx), Err(DexError::PairAlreadyInitialized));
    assert_eq!(ctx, configured);
    assert_eq!(ctx.factory.pair_count, 4);

    ctx.token0 = named(7);
    ctx.token1 = named(8);
    assert_eq!(configure_pair(&mut ctx), Err(DexError::PairAlreadyInitialized));
}

#[test]
fn configure_refuses_strangers() {
    let mut ctx = configuration(named(2), named(3));
    ctx.owner = named(8);
    let before = ctx;
    assert_eq!(configure_pair(&mut ctx), Err(DexError::NotFactoryOwner));
    assert_eq!(ctx, before);
}

#[test]
fn configured_pair_is_refused_before_the_caller_is_looked_at() {
    let mut ctx = configuration(named(2), named(3));
    ctx.pair.is_initialized = true;
    ctx.owner = named(8);
    assert_eq!(configure_pair(&mut ctx), Err(DexError::PairAlreadyInitialized));
}

#[test]
fn configure_refuses_a_full_counter() {
    let mut ctx = configuration(named(2), named(3));
    ctx.factory.pair_count = u64::MAX;
    let before = ctx;
    assert_eq!(configure_pair(&mut ctx), Err(DexError::ArithmeticOverflow));
    assert_eq!(ctx, before);

    ctx.factory.pair_count = u64::MAX - 1;
    assert_eq!(configure_pair(&mut ctx).map(|event| event.pair_count), Ok(u64::MAX));
}

#[test]
fn error_messages() {
    assert_eq!(DexError::IdenticalTokens.message(), "Tokens cannot be identical");
    assert_eq!(DexError::PairExists.message(), "Pair already exists for these tokens");
    assert_eq!(
        DexError::NotFactoryOwner.message(),
        "Only the factory owner can perform this action"
    );
    assert_eq!(DexError::PairAlreadyInitialized.message(), "Pair is already initialized");
    assert_eq!(DexError::PairNotInitialized.message(), "Pair is not initialized");
    assert_eq!(DexError::InvalidPairFactory.message(), "Invalid pair factory");
    assert_eq!(DexError::InvalidTokenAccount.message(), "Invalid token account");
    assert_eq!(DexError::InvalidLpMint.message(), "Invalid LP mint");
    assert_eq!(DexError::InvalidTokenOwner.message(), "Invalid token owner");
    assert_eq!(DexError::InsufficientAmount.message(), "Insufficient amount");
    assert_eq!(
        DexError::InsufficientLiquidityMinted.message(),
        "Insufficient liquidity minted"
    );
    assert_eq!(
        DexError::AmountOverflow.message(),
        "Amount exceeds maximum allowable token quantity"
    );
    assert_eq!(DexError::InsufficientOutputAmount.message(), "Insufficient output amount");
    assert_eq!(DexError::InsufficientLiquidity.message(), "Insufficient liquidity");
    assert_eq!(DexError::K.message(), "K value decreased - this shouldn't happen");
    assert_eq!(DexError::ArithmeticOverflow.message(), "Arithmetic overflow");
    assert_eq!(DexError::ArithmeticUnderflow.message(), "Arithmetic underflow");
    assert_eq!(DexError::DivisionByZero.message(), "Division by zero");
}
