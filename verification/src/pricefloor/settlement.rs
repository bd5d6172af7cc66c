//! The payout arithmetic of a settlement.

use crate::pricefloor::errors::Error;
use vstd::prelude::*;

verus! {

/// How the collateral is split when the agreement settles.
#[derive(Clone, Copy, Debug, PartialEq, Eq, Structural)]
pub struct Settlement {
    /// Paid to the farmer.
    pub to_farmer: i128,
    /// Returned to the buyer.
    pub to_buyer: i128,
    /// The market price the settlement used.
    pub market_price: i128,
}

/// `x` is representable as an `i128`.
pub open spec fn fits_i128(x: int) -> bool {
    i128::MIN <= x <= i128::MAX
}

/// The farmer's share before any overflow check: the shortfall below the
/// floor times the notional, capped at the collateral, or nothing at or
/// above the floor.
pub open spec fn farmer_share(floor_price: i128, notional: i128, market_price: i128, collateral: i128) -> int {
    if market_price < floor_price {
        let shortfall = (floor_price - market_price) * notional;
        if shortfall < collateral {
            shortfall
        } else {
            collateral as int
        }
    } else {
        0
    }
}

/// The settlement of `collateral` at `market_price`, or
/// `Error::ArithmeticOverflow` when the shortfall, its product with the
/// notional, or the buyer's remainder does not fit in an `i128`.
pub open spec fn settlement_for(floor_price: i128, notional: i128, market_price: i128, collateral: i128) -> Result<
    Settlement,
    Error,
> {
    let share = farmer_share(floor_price, notional, market_price, collateral);
    if market_price < floor_price && (!fits_i128(floor_price - market_price) || !fits_i128(
        (floor_price - market_price) * notional,
    ) || !fits_i128(collateral - share)) {
        Err(Error::ArithmeticOverflow)
    } else {
        Ok(
            Settlement {
                to_farmer: share as i128,
                to_buyer: (collateral - share) as i128,
                market_price,
            },
        )
    }
}

/// Splits `collateral` between farmer and buyer at `market_price`, with
/// checked arithmetic.
pub fn compute_settlement(
    floor_price: i128,
    notional: i128,
    market_price: i128,
    collateral: i128,
) -> (r: Result<Settlement, Error>)
    ensures
        r == settlement_for(floor_price, notional, market_price, collateral),
{
    if market_price >= floor_price {
        return Ok(Settlement { to_farmer: 0, to_buyer: collateral, market_price });
    }
    let shortfall = match floor_price.checked_sub(market_price) {
        Some(d) => d,
        None => {
            return Err(Error::ArithmeticOverflow);
        },
    };
    let owed = match shortfall.checked_mul(notional) {
        Some(p) => p,
        None => {
            return Err(Error::ArithmeticOverflow);
        },
    };
    let to_farmer = if owed < collateral {
        owed
    } else {
        collateral
    };
    match collateral.checked_sub(to_farmer) {
        Some(to_buyer) => Ok(Settlement { to_farmer, to_buyer, market_price }),
        None => Err(Error::ArithmeticOverflow),
    }
}

} // verus!
