//! Properties of the price-floor agreement that span its operations, stated
//! over the outcome functions its operations' contracts use.

use crate::oracle::types::PriceData;
use crate::pricefloor::contract::{grace_elapsed, Contract, SETTLE_FAILURE_GRACE, UNFUNDED_CANCEL_GRACE};
use crate::pricefloor::errors::Error;
use crate::pricefloor::settlement::{farmer_share, settlement_for, Settlement};
use vstd::prelude::*;

verus! {

/// A settlement splits exactly the collateral: what the farmer receives plus
/// what the buyer gets back is the collateral.
pub proof fn law_settlement_conserves_collateral(
    floor_price: i128,
    notional: i128,
    market_price: i128,
    collateral: i128,
)
    requires
        settlement_for(floor_price, notional, market_price, collateral) is Ok,
    ensures
        ({
            let s = settlement_for(floor_price, notional, market_price, collateral)->Ok_0;
            s.to_farmer + s.to_buyer == collateral && s.market_price == market_price
        }),
{
}

/// With a non-negative notional and collateral, the farmer never receives
/// more than the collateral nor a negative amount, and the buyer's refund is
/// never negative.
pub proof fn law_settlement_within_collateral(
    floor_price: i128,
    notional: i128,
    market_price: i128,
    collateral: i128,
)
    requires
        notional >= 0,
        collateral >= 0,
        settlement_for(floor_price, notional, market_price, collateral) is Ok,
    ensures
        ({
            let s = settlement_for(floor_price, notional, market_price, collateral)->Ok_0;
            0 <= s.to_farmer <= collateral && 0 <= s.to_buyer <= collateral
        }),
{
    if market_price < floor_price {
        assert((floor_price - market_price) * notional >= 0) by (nonlinear_arith)
            requires
                floor_price - market_price > 0,
                notional >= 0,
        ;
    }
}

/// At or above the floor the farmer receives nothing and the buyer the full
/// collateral back; this settlement never overflows.
pub proof fn law_no_payout_at_or_above_floor(
    floor_price: i128,
    notional: i128,
    market_price: i128,
    collateral: i128,
)
    requires
        market_price >= floor_price,
    ensures
        settlement_for(floor_price, notional, market_price, collateral) == Ok::<Settlement, Error>(
            Settlement { to_farmer: 0, to_buyer: collateral, market_price },
        ),
{
}

/// With a non-negative notional, a lower market price never pays the farmer
/// less.
pub proof fn law_payout_nonincreasing_in_price(
    floor_price: i128,
    notional: i128,
    lower: i128,
    higher: i128,
    collateral: i128,
)
    requires
        notional >= 0,
        collateral >= 0,
        lower <= higher,
    ensures
        farmer_share(floor_price, notional, lower, collateral) >= farmer_share(
            floor_price,
            notional,
            higher,
            collateral,
        ),
{
    if higher < floor_price {
        assert((floor_price - lower) * notional >= (floor_price - higher) * notional)
            by (nonlinear_arith)
            requires
                floor_price - lower >= floor_price - higher,
                notional >= 0,
        ;
    } else if lower < floor_price {
        assert((floor_price - lower) * notional >= 0) by (nonlinear_arith)
            requires
                floor_price - lower > 0,
                notional >= 0,
        ;
    }
}

/// Without an oracle price there is never a payout: settling fails whatever
/// the state, time and collateral.
pub proof fn law_no_fabricated_payout(c: Contract, now: u64, collateral: i128)
    ensures
        c.settle_result(now, None, collateral) is Err,
{
}

/// Settlement happens once: after a successful settle every further settle
/// and every cancel by a party fails with `Error::AlreadySettled`.
pub proof fn law_settle_once(
    c: Contract,
    now: u64,
    last_price: Option<PriceData>,
    collateral: i128,
    later: u64,
    later_price: Option<PriceData>,
    later_collateral: i128,
    caller: Seq<char>,
    oracle_has_price: bool,
)
    requires
        c.settle_result(now, last_price, collateral) is Ok,
        c.is_party(caller),
    ensures
        c.after_settle().settle_result(later, later_price, later_collateral) == Err::<
            Settlement,
            Error,
        >(Error::AlreadySettled),
        c.after_settle().cancel_result(caller, later, oracle_has_price) == Err::<bool, Error>(
            Error::AlreadySettled,
        ),
{
}

/// Funding happens once: after a successful fund, the buyer's further
/// attempts with a positive amount fail with `Error::AlreadyFunded`.
pub proof fn law_fund_once(c: Contract, caller: Seq<char>, amount: i128, again: i128)
    requires
        c.fund_result(caller, amount) is Ok,
        again > 0,
    ensures
        c.after_fund().fund_result(caller, again) == Err::<(), Error>(Error::AlreadyFunded),
{
}

/// A funded agreement is never cancelled while the oracle has a price: the
/// agreement must settle instead.
pub proof fn law_priced_funded_agreement_not_cancelled(c: Contract, caller: Seq<char>, now: u64)
    requires
        c.funded,
    ensures
        c.cancel_result(caller, now, true) is Err,
{
}

/// Settling is possible exactly when cancelling is not yet needed: a funded,
/// mature, unsettled agreement with an oracle price settles (barring
/// overflow), and the same agreement refuses to cancel.
pub proof fn law_settle_or_cancel(c: Contract, now: u64, p: PriceData, collateral: i128, caller: Seq<char>)
    requires
        c.initialized(),
        c.funded,
        !c.settled,
        now >= c.agreed().maturity_ts,
    ensures
        c.settle_result(now, Some(p), collateral) == settlement_for(
            c.agreed().floor_price,
            c.agreed().notional,
            p.price,
            collateral,
        ),
        c.cancel_result(caller, now, true) is Err,
{
}

/// Below the floor, when the arithmetic fits, the farmer receives
/// `min((floor_price - market_price) * notional, collateral)` and the buyer
/// the remainder of the collateral.
pub proof fn law_payout_below_floor(
    floor_price: i128,
    notional: i128,
    market_price: i128,
    collateral: i128,
)
    requires
        market_price < floor_price,
        floor_price - market_price <= i128::MAX,
        i128::MIN <= (floor_price - market_price) * notional <= i128::MAX,
        i128::MIN <= collateral - (if (floor_price - market_price) * notional < collateral {
            (floor_price - market_price) * notional
        } else {
            collateral as int
        }) <= i128::MAX,
    ensures
        ({
            let owed = (floor_price - market_price) * notional;
            let pay = if owed < collateral {
                owed
            } else {
                collateral as int
            };
            settlement_for(floor_price, notional, market_price, collateral) == Ok::<Settlement, Error>(
                Settlement {
                    to_farmer: pay as i128,
                    to_buyer: (collateral - pay) as i128,
                    market_price,
                },
            )
        }),
{
}

/// Below the floor, the settlement is refused with `Error::ArithmeticOverflow`
/// exactly when `floor_price - market_price`, its product with the notional,
/// or the buyer's remainder does not fit in an `i128`.
pub proof fn law_payout_overflow(
    floor_price: i128,
    notional: i128,
    market_price: i128,
    collateral: i128,
)
    requires
        market_price < floor_price,
    ensures
        settlement_for(floor_price, notional, market_price, collateral) == Err::<Settlement, Error>(
            Error::ArithmeticOverflow,
        ) <==> (floor_price - market_price > i128::MAX || (floor_price - market_price) * notional
            < i128::MIN || (floor_price - market_price) * notional > i128::MAX || collateral - (if (
        floor_price - market_price) * notional < collateral {
            (floor_price - market_price) * notional
        } else {
            collateral as int
        }) < i128::MIN || collateral - (if (floor_price - market_price) * notional < collateral {
            (floor_price - market_price) * notional
        } else {
            collateral as int
        }) > i128::MAX),
{
}

/// Either party may cancel: the outcome of `cancel` is the same whether the
/// farmer or the buyer calls it.
pub proof fn law_cancel_same_for_both_parties(c: Contract, now: u64, oracle_has_price: bool)
    requires
        c.initialized(),
    ensures
        c.cancel_result(c.agreed().farmer@, now, oracle_has_price) == c.cancel_result(
            c.agreed().buyer@,
            now,
            oracle_has_price,
        ),
{
}

/// The grace rules of `cancel`, for either party of an unsettled agreement:
/// an unfunded agreement cancels (without refund) exactly once maturity plus
/// [`UNFUNDED_CANCEL_GRACE`] has passed; a funded one cancels with a full
/// refund to the buyer exactly once maturity plus [`SETTLE_FAILURE_GRACE`]
/// has passed with the oracle still silent.
pub proof fn law_cancel_grace_rules(c: Contract, caller: Seq<char>, now: u64, oracle_has_price: bool)
    requires
        c.initialized(),
        !c.settled,
        c.agreed().farmer@ == caller || c.agreed().buyer@ == caller,
    ensures
        !c.funded ==> (c.cancel_result(caller, now, oracle_has_price) == if now as int
            > c.agreed().maturity_ts as int + UNFUNDED_CANCEL_GRACE as int {
            Ok::<bool, Error>(false)
        } else {
            Err::<bool, Error>(Error::GracePeriodNotElapsed)
        }),
        c.funded ==> (c.cancel_result(caller, now, oracle_has_price) == if now as int
            > c.agreed().maturity_ts as int + SETTLE_FAILURE_GRACE as int && !oracle_has_price {
            Ok::<bool, Error>(true)
        } else {
            Err::<bool, Error>(Error::GracePeriodNotElapsed)
        }),
{
}

} // verus!
