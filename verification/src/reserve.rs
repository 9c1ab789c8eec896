//! The lending reserve that pool funds are invested with: liquidity goes in
//! and collateral comes out at an exchange rate that grows with time.
//! Every quantity is kept in 64 bits; a step that would leave that range is
//! refused and changes nothing.

use crate::pool::Key;
use vstd::prelude::*;

verus! {

/// The scale of the exchange rate: liquidity per unit of collateral, times
/// this.
pub const RATE_SCALE: u64 = 1_000_000;

/// The slots that a year is counted as when yield is accrued.
pub const SLOTS_PER_YEAR: u64 = 63_000_000;

/// The yearly yield of a new reserve, in basis points.
pub const DEFAULT_YIELD_RATE_BPS: u64 = 500;

/// A lending market.
#[derive(Copy, Clone, Debug, PartialEq, Eq)]
pub struct LendingMarket {
    pub bump: u8,
    pub authority: Key,
}

/// A reserve of one kind of liquidity.
#[derive(Copy, Clone, Debug, PartialEq, Eq)]
pub struct Reserve {
    pub bump: u8,
    pub lending_market: Key,
    pub liquidity_mint: Key,
    pub collateral_mint: Key,
    pub liquidity_supply: Key,
    /// Liquidity per unit of collateral, scaled by `RATE_SCALE`.
    pub exchange_rate: u64,
    pub last_update_slot: u64,
    pub total_liquidity: u64,
    pub total_collateral: u64,
    /// Yearly yield in basis points.
    pub yield_rate_bps: u64,
}

/// Why the reserve refused.
#[derive(Copy, Clone, Debug, PartialEq, Eq)]
pub enum ErrorCode {
    /// The liquidity offered buys no collateral.
    ZeroCollateral,
    /// The collateral offered redeems no liquidity.
    ZeroLiquidity,
    /// The reserve holds less liquidity than is to be redeemed.
    InsufficientLiquidity,
    /// A quantity would leave its range, or the exchange rate is zero where
    /// it divides.
    MathOverflow,
}

/// The accounts of `init_lending_market`.
#[derive(Copy, Clone, Debug, PartialEq, Eq)]
pub struct InitLendingMarket {
    pub authority: Key,
    pub lending_market_bump: u8,
}

/// The accounts of `init_reserve`.
#[derive(Copy, Clone, Debug, PartialEq, Eq)]
pub struct InitReserve {
    pub reserve_bump: u8,
    pub lending_market: Key,
    pub liquidity_mint: Key,
    pub collateral_mint: Key,
    pub liquidity_supply: Key,
}

/// A new lending market under the authority that set it up.
pub fn init_lending_market(ctx: &InitLendingMarket) -> (market: LendingMarket)
    ensures
        market == (LendingMarket { bump: ctx.lending_market_bump, authority: ctx.authority }),
{
    LendingMarket { bump: ctx.lending_market_bump, authority: ctx.authority }
}

/// A new reserve: empty, at the exchange rate given, last updated at
/// `current_slot`, yielding `DEFAULT_YIELD_RATE_BPS`.
pub fn init_reserve(ctx: &InitReserve, initial_exchange_rate: u64, current_slot: u64) -> (reserve:
    Reserve)
    ensures
        reserve == (Reserve {
            bump: ctx.reserve_bump,
            lending_market: ctx.lending_market,
            liquidity_mint: ctx.liquidity_mint,
            collateral_mint: ctx.collateral_mint,
            liquidity_supply: ctx.liquidity_supply,
            exchange_rate: initial_exchange_rate,
            last_update_slot: current_slot,
            total_liquidity: 0,
            total_collateral: 0,
            yield_rate_bps: DEFAULT_YIELD_RATE_BPS,
        }),
{
    Reserve {
        bump: ctx.reserve_bump,
        lending_market: ctx.lending_market,
        liquidity_mint: ctx.liquidity_mint,
        collateral_mint: ctx.collateral_mint,
        liquidity_supply: ctx.liquidity_supply,
        exchange_rate: initial_exchange_rate,
        last_update_slot: current_slot,
        total_liquidity: 0,
        total_collateral: 0,
        yield_rate_bps: DEFAULT_YIELD_RATE_BPS,
    }
}

/// The slots gone by since the reserve's last update; none when the clock
/// reads earlier than that.
pub open spec fn slots_passed(reserve: Reserve, current_slot: u64) -> nat {
    if current_slot > reserve.last_update_slot {
        (current_slot - reserve.last_update_slot) as nat
    } else {
        0
    }
}

/// The exchange rate at `current_slot`. While collateral is out and slots
/// have gone by, the rate grows by the factor `RATE_SCALE` plus the yield of
/// those slots, over `RATE_SCALE`, rounded down; otherwise it stays. `None`
/// when the slots times the yield rate, the factor, or the rate times the
/// factor leaves 64 bits.
pub open spec fn rate_at(reserve: Reserve, current_slot: u64) -> Option<u64> {
    let slots = slots_passed(reserve, current_slot);
    if slots > 0 && reserve.total_collateral > 0 {
        let growth = slots * reserve.yield_rate_bps;
        let factor = RATE_SCALE + growth / (SLOTS_PER_YEAR as int);
        if growth > u64::MAX || factor > u64::MAX || reserve.exchange_rate * factor > u64::MAX {
            None
        } else {
            Some((reserve.exchange_rate * factor / (RATE_SCALE as int)) as u64)
        }
    } else {
        Some(reserve.exchange_rate)
    }
}

/// The reserve after a deposit of `liquidity_amount` at `current_slot`, and
/// the collateral minted for it: the liquidity times `RATE_SCALE` over the
/// rate at that slot, rounded down.
pub open spec fn after_deposit(reserve: Reserve, current_slot: u64, liquidity_amount: u64) -> Result<
    (Reserve, u64),
    ErrorCode,
> {
    match rate_at(reserve, current_slot) {
        None => Err(ErrorCode::MathOverflow),
        Some(rate) => {
            let collateral = liquidity_amount * RATE_SCALE / (rate as int);
            if liquidity_amount * RATE_SCALE > u64::MAX || rate == 0 {
                Err(ErrorCode::MathOverflow)
            } else if collateral == 0 {
                Err(ErrorCode::ZeroCollateral)
            } else if reserve.total_liquidity + liquidity_amount > u64::MAX
                || reserve.total_collateral + collateral > u64::MAX {
                Err(ErrorCode::MathOverflow)
            } else {
                Ok(
                    (
                        Reserve {
                            exchange_rate: rate,
                            last_update_slot: current_slot,
                            total_liquidity: (reserve.total_liquidity + liquidity_amount) as u64,
                            total_collateral: (reserve.total_collateral + collateral) as u64,
                            ..reserve
                        },
                        collateral as u64,
                    ),
                )
            }
        },
    }
}

/// The reserve after `collateral_amount` was redeemed at `current_slot`, and
/// the liquidity paid out for it: the collateral times the rate at that slot
/// over `RATE_SCALE`, rounded down.
pub open spec fn after_redeem(reserve: Reserve, current_slot: u64, collateral_amount: u64) -> Result<
    (Reserve, u64),
    ErrorCode,
> {
    match rate_at(reserve, current_slot) {
        None => Err(ErrorCode::MathOverflow),
        Some(rate) => {
            let liquidity = collateral_amount * rate / (RATE_SCALE as int);
            if collateral_amount * rate > u64::MAX {
                Err(ErrorCode::MathOverflow)
            } else if liquidity == 0 {
                Err(ErrorCode::ZeroLiquidity)
            } else if liquidity > reserve.total_liquidity {
                Err(ErrorCode::InsufficientLiquidity)
            } else if collateral_amount > reserve.total_collateral {
                Err(ErrorCode::MathOverflow)
            } else {
                Ok(
                    (
                        Reserve {
                            exchange_rate: rate,
                            last_update_slot: current_slot,
                            total_liquidity: (reserve.total_liquidity - liquidity) as u64,
                            total_collateral: (reserve.total_collateral - collateral_amount) as u64,
                            ..reserve
                        },
                        liquidity as u64,
                    ),
                )
            }
        },
    }
}

/// The reserve after `additional_liquidity` was credited as yield: the rate
/// rises by that liquidity times `RATE_SCALE` per unit of collateral out,
/// counting at least one unit, rounded down.
pub open spec fn after_accrual(reserve: Reserve, additional_liquidity: u64) -> Result<
    Reserve,
    ErrorCode,
> {
    let units = if reserve.total_collateral > 1 {
        reserve.total_collateral
    } else {
        1
    };
    let rise = additional_liquidity * RATE_SCALE / (units as int);
    if additional_liquidity * RATE_SCALE > u64::MAX || reserve.exchange_rate + rise > u64::MAX
        || reserve.total_liquidity + additional_liquidity > u64::MAX {
        Err(ErrorCode::MathOverflow)
    } else {
        Ok(
            Reserve {
                exchange_rate: (reserve.exchange_rate + rise) as u64,
                total_liquidity: (reserve.total_liquidity + additional_liquidity) as u64,
                ..reserve
            },
        )
    }
}

/// The exchange rate at `current_slot`, or `None` where working it out
/// leaves 64 bits.
fn accrued_rate(reserve: &Reserve, current_slot: u64) -> (rate: Option<u64>)
    ensures
        rate == rate_at(*reserve, current_slot),
{
    let slots = current_slot.saturating_sub(reserve.last_update_slot);
    if slots > 0 && reserve.total_collateral > 0 {
        let growth = match slots.checked_mul(reserve.yield_rate_bps) {
            Some(v) => v,
            None => {
                return None;
            },
        };
        let factor = match RATE_SCALE.checked_add(growth / SLOTS_PER_YEAR) {
            Some(v) => v,
            None => {
                return None;
            },
        };
        match reserve.exchange_rate.checked_mul(factor) {
            Some(v) => Some(v / RATE_SCALE),
            None => None,
        }
    } else {
        Some(reserve.exchange_rate)
    }
}

/// Takes `liquidity_amount` into the reserve at `current_slot` and returns
/// the collateral to mint for it. The exchange rate is brought up to the
/// slot first. A refusal leaves the reserve as it is.
pub fn deposit_reserve_liquidity(reserve: &mut Reserve, current_slot: u64, liquidity_amount: u64) -> (r:
    Result<u64, ErrorCode>)
    ensures
        match after_deposit(*old(reserve), current_slot, liquidity_amount) {
            Ok((after, collateral)) => r == Ok::<u64, ErrorCode>(collateral) && *final(reserve)
                == after,
            Err(e) => r == Err::<u64, ErrorCode>(e) && *final(reserve) == *old(reserve),
        },
{
    let rate = match accrued_rate(reserve, current_slot) {
        Some(v) => v,
        None => {
            return Err(ErrorCode::MathOverflow);
        },
    };
    let scaled = match liquidity_amount.checked_mul(RATE_SCALE) {
        Some(v) => v,
        None => {
            return Err(ErrorCode::MathOverflow);
        },
    };
    let collateral_amount = match scaled.checked_div(rate) {
        Some(v) => v,
        None => {
            return Err(ErrorCode::MathOverflow);
        },
    };
    if collateral_amount == 0 {
        return Err(ErrorCode::ZeroCollateral);
    }
    let total_liquidity = match reserve.total_liquidity.checked_add(liquidity_amount) {
        Some(v) => v,
        None => {
            return Err(ErrorCode::MathOverflow);
        },
    };
    let total_collateral = match reserve.total_collateral.checked_add(collateral_amount) {
        Some(v) => v,
        None => {
            return Err(ErrorCode::MathOverflow);
        },
    };
    reserve.exchange_rate = rate;
    reserve.last_update_slot = current_slot;
    reserve.total_liquidity = total_liquidity;
    reserve.total_collateral = total_collateral;
    Ok(collateral_amount)
}

/// Redeems `collateral_amount` at `current_slot` and returns the liquidity
/// to pay out for it. The exchange rate is brought up to the slot first. A
/// refusal leaves the reserve as it is.
pub fn redeem_reserve_collateral(reserve: &mut Reserve, current_slot: u64, collateral_amount: u64) -> (r:
    Result<u64, ErrorCode>)
    ensures
        match after_redeem(*old(reserve), current_slot, collateral_amount) {
            Ok((after, liquidity)) => r == Ok::<u64, ErrorCode>(liquidity) && *final(reserve)
                == after,
            Err(e) => r == Err::<u64, ErrorCode>(e) && *final(reserve) == *old(reserve),
        },
{
    let rate = match accrued_rate(reserve, current_slot) {
        Some(v) => v,
        None => {
            return Err(ErrorCode::MathOverflow);
        },
    };
    let scaled = match collateral_amount.checked_mul(rate) {
        Some(v) => v,
        None => {
            return Err(ErrorCode::MathOverflow);
        },
    };
    let liquidity_amount = scaled / RATE_SCALE;
    if liquidity_amount == 0 {
        return Err(ErrorCode::ZeroLiquidity);
    }
    if liquidity_amount > reserve.total_liquidity {
        return Err(ErrorCode::InsufficientLiquidity);
    }
    let total_collateral = match reserve.total_collateral.checked_sub(collateral_amount) {
        Some(v) => v,
        None => {
            return Err(ErrorCode::MathOverflow);
        },
    };
    reserve.exchange_rate = rate;
    reserve.last_update_slot = current_slot;
    reserve.total_liquidity = reserve.total_liquidity - liquidity_amount;
    reserve.total_collateral = total_collateral;
    Ok(liquidity_amount)
}

/// Credits `additional_liquidity` to the reserve as yield, which raises the
/// exchange rate. A refusal leaves the reserve as it is.
pub fn accrue_yield(reserve: &mut Reserve, additional_liquidity: u64) -> (r: Result<(), ErrorCode>)
    ensures
        match after_accrual(*old(reserve), additional_liquidity) {
            Ok(after) => r is Ok && *final(reserve) == after,
            Err(e) => r == Err::<(), ErrorCode>(e) && *final(reserve) == *old(reserve),
        },
{
    let scaled = match additional_liquidity.checked_mul(RATE_SCALE) {
        Some(v) => v,
        None => {
            return Err(ErrorCode::MathOverflow);
        },
    };
    let units: u64 = if reserve.total_collateral > 1 {
        reserve.total_collateral
    } else {
        1
    };
    let rate_increase = scaled / units;
    let exchange_rate = match reserve.exchange_rate.checked_add(rate_increase) {
        Some(v) => v,
        None => {
            return Err(ErrorCode::MathOverflow);
        },
    };
    let total_liquidity = match reserve.total_liquidity.checked_add(additional_liquidity) {
        Some(v) => v,
        None => {
            return Err(ErrorCode::MathOverflow);
        },
    };
    reserve.exchange_rate = exchange_rate;
    reserve.total_liquidity = total_liquidity;
    Ok(())
}

} // verus!
