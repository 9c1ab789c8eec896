use ghost_pool::reserve::{
    accrue_yield, deposit_reserve_liquidity, init_lending_market, init_reserve,
    redeem_reserve_collateral, ErrorCode, InitLendingMarket, InitReserve, LendingMarket, Reserve,
    DEFAULT_YIELD_RATE_BPS, RATE_SCALE, SLOTS_PER_YEAR,
};

fn new_reserve(rate: u64, slot: u64) -> Reserve {
    let ctx = InitReserve {
        reserve_bump: 250,
        lending_market: [1; 32],
        liquidity_mint: [2; 32],
        collateral_mint: [3; 32],
        liquidity_supply: [4; 32],
    };
    init_reserve(&ctx, rate, slot)
}

#[test]
fn market_takes_its_authority_and_bump() {
    let ctx = InitLendingMarket { authority: [7; 32], lending_market_bump: 251 };
    assert_eq!(init_lending_market(&ctx), LendingMarket { bump: 251, authority: [7; 32] });
}

#[test]
fn new_reserve_is_empty() {
    assert_eq!(
        new_reserve(1_000_000, 50),
        Reserve {
            bump: 250,
            lending_market: [1; 32],
            liquidity_mint: [2; 32],
            collateral_mint: [3; 32],
            liquidity_supply: [4; 32],
            exchange_rate: 1_000_000,
            last_update_slot: 50,
            total_liquidity: 0,
            total_collateral: 0,
            yield_rate_bps: 500,
        }
    );
    assert_eq!(DEFAULT_YIELD_RATE_BPS, 500);
    assert_eq!(RATE_SCALE, 1_000_000);
    assert_eq!(SLOTS_PER_YEAR, 63_000_000);
}

#[test]
fn deposit_mints_collateral_at_the_rate() {
    let mut reserve = new_reserve(2_000_000, 50);
    let before = reserve;
    assert_eq!(deposit_reserve_liquidity(&mut reserve, 60, 1_001), Ok(500));
    assert_eq!(
        reserve,
        Reserve { last_update_slot: 60, total_liquidity: 1_001, total_collateral: 500, ..before }
    );
}

#[test]
fn rate_grows_with_the_slots_gone_by() {
    let mut reserve = new_reserve(1_000_000, 0);
    deposit_reserve_liquidity(&mut reserve, 0, 1_000).unwrap();
    assert_eq!(reserve.exchange_rate, 1_000_000);
    let before = reserve;
    assert_eq!(deposit_reserve_liquidity(&mut reserve, 126_000_000, 2_002), Ok(2_000));
    assert_eq!(
        reserve,
        Reserve {
            exchange_rate: 1_001_000,
            last_update_slot: 126_000_000,
            total_liquidity: 3_002,
            total_collateral: 3_000,
            ..before
        }
    );
    let before = reserve;
    assert_eq!(deposit_reserve_liquidity(&mut reserve, 5, 1_001), Ok(1_000));
    assert_eq!(reserve.exchange_rate, before.exchange_rate);
    assert_eq!(reserve.last_update_slot, 5);
}

#[test]
fn deposit_that_buys_nothing_is_refused() {
    let mut reserve = new_reserve(2_000_000, 0);
    let before = reserve;
    assert_eq!(deposit_reserve_liquidity(&mut reserve, 9, 1), Err(ErrorCode::ZeroCollateral));
    assert_eq!(deposit_reserve_liquidity(&mut reserve, 9, 0), Err(ErrorCode::ZeroCollateral));
    assert_eq!(reserve, before);
}

#[test]
fn quantities_out_of_range_are_refused() {
    let mut reserve = new_reserve(1_000_000, 0);
    let before = reserve;
    assert_eq!(
        deposit_reserve_liquidity(&mut reserve, 1, u64::MAX / 1_000_000 + 1),
        Err(ErrorCode::MathOverflow)
    );
    let mut zero_rate = new_reserve(0, 0);
    assert_eq!(deposit_reserve_liquidity(&mut zero_rate, 1, 5), Err(ErrorCode::MathOverflow));
    assert_eq!(reserve, before);
    deposit_reserve_liquidity(&mut reserve, 0, 1_000).unwrap();
    let before = reserve;
    assert_eq!(
        deposit_reserve_liquidity(&mut reserve, u64::MAX, 1_000),
        Err(ErrorCode::MathOverflow)
    );
    assert_eq!(redeem_reserve_collateral(&mut reserve, u64::MAX, 1), Err(ErrorCode::MathOverflow));
    assert_eq!(accrue_yield(&mut reserve, u64::MAX), Err(ErrorCode::MathOverflow));
    assert_eq!(reserve, before);
    let mut rich = Reserve { exchange_rate: u64::MAX / 1_000_000, total_collateral: 1, ..before };
    assert_eq!(deposit_reserve_liquidity(&mut rich, 63_000_000, 5), Err(ErrorCode::MathOverflow));
    let mut full = Reserve { total_liquidity: u64::MAX, ..before };
    assert_eq!(deposit_reserve_liquidity(&mut full, 0, 5), Err(ErrorCode::MathOverflow));
    assert_eq!(accrue_yield(&mut full, 1), Err(ErrorCode::MathOverflow));
}

#[test]
fn redeem_pays_out_at_the_rate() {
    let mut reserve = new_reserve(1_500_000, 0);
    deposit_reserve_liquidity(&mut reserve, 0, 3_000).unwrap();
    assert_eq!(reserve.total_collateral, 2_000);
    let before = reserve;
    assert_eq!(redeem_reserve_collateral(&mut reserve, 0, 501), Ok(751));
    assert_eq!(
        reserve,
        Reserve { total_liquidity: 2_249, total_collateral: 1_499, ..before }
    );
}

#[test]
fn redeem_is_refused_where_nothing_or_too_much_is_due() {
    let mut reserve = new_reserve(500_000, 0);
    deposit_reserve_liquidity(&mut reserve, 0, 100).unwrap();
    assert_eq!(reserve.total_collateral, 200);
    let before = reserve;
    assert_eq!(redeem_reserve_collateral(&mut reserve, 0, 1), Err(ErrorCode::ZeroLiquidity));
    assert_eq!(redeem_reserve_collateral(&mut reserve, 0, 0), Err(ErrorCode::ZeroLiquidity));
    assert_eq!(
        redeem_reserve_collateral(&mut reserve, 0, 202),
        Err(ErrorCode::InsufficientLiquidity)
    );
    assert_eq!(reserve, before);
    let mut short = Reserve { total_collateral: 10, ..before };
    assert_eq!(redeem_reserve_collateral(&mut short, 0, 20), Err(ErrorCode::MathOverflow));
    assert_eq!(redeem_reserve_collateral(&mut reserve, 0, 200), Ok(100));
    assert_eq!(reserve.total_liquidity, 0);
    assert_eq!(reserve.total_collateral, 0);
}

#[test]
fn accrual_raises_the_rate_per_unit_of_collateral() {
    let mut reserve = new_reserve(1_000_000, 0);
    deposit_reserve_liquidity(&mut reserve, 0, 400).unwrap();
    let before = reserve;
    assert_eq!(accrue_yield(&mut reserve, 40), Ok(()));
    assert_eq!(
        reserve,
        Reserve { exchange_rate: 1_100_000, total_liquidity: 440, ..before }
    );
    let mut empty = new_reserve(1_000_000, 0);
    assert_eq!(accrue_yield(&mut empty, 3), Ok(()));
    assert_eq!(empty.exchange_rate, 4_000_000);
    assert_eq!(empty.total_liquidity, 3);
}
