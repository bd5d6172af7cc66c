use agrifeed::oracle::PriceData;
use agrifeed::pricefloor::settlement::compute_settlement;
use agrifeed::pricefloor::{
    Address, Asset, Contract, Error, Settlement, Symbol, SETTLE_FAILURE_GRACE,
    UNFUNDED_CANCEL_GRACE,
};

fn address(strkey: &str) -> Address {
    Address::new(strkey)
}

const MATURITY: u64 = 1_003_600;

fn agreement(floor_price: i128, notional: i128) -> Contract {
    let mut pf = Contract::new();
    pf.initialize(
        address("GFARMER"),
        address("GBUYER"),
        Asset::Other(Symbol::new("COCOA")),
        floor_price,
        notional,
        address("CTOKEN"),
        MATURITY,
        address("CORACLE"),
    )
    .unwrap();
    pf
}

fn price(p: i128) -> Option<PriceData> {
    Some(PriceData {
        price: p,
        timestamp: MATURITY,
    })
}

#[test]
fn grace_periods_are_two_days() {
    assert_eq!(UNFUNDED_CANCEL_GRACE, 172_800);
    assert_eq!(SETTLE_FAILURE_GRACE, 172_800);
}

#[test]
fn settlement_examples() {
    assert_eq!(
        compute_settlement(100, 10, 80, 500),
        Ok(Settlement {
            to_farmer: 200,
            to_buyer: 300,
            market_price: 80,
        })
    );
    assert_eq!(
        compute_settlement(100, 10, 80, 150),
        Ok(Settlement {
            to_farmer: 150,
            to_buyer: 0,
            market_price: 80,
        })
    );
    assert_eq!(
        compute_settlement(100, 10, 100, 500),
        Ok(Settlement {
            to_farmer: 0,
            to_buyer: 500,
            market_price: 100,
        })
    );
    assert_eq!(
        compute_settlement(120, 10, 100, 1_000),
        Ok(Settlement {
            to_farmer: 200,
            to_buyer: 800,
            market_price: 100,
        })
    );
}

#[test]
fn settlement_overflow_is_reported() {
    // (floor - market) does not fit.
    assert_eq!(
        compute_settlement(i128::MAX, 1, -1, 500),
        Err(Error::ArithmeticOverflow)
    );
    // The shortfall times the notional does not fit.
    assert_eq!(
        compute_settlement(i128::MAX, 2, 0, 500),
        Err(Error::ArithmeticOverflow)
    );
    // A negative payout would leave the buyer more than an i128 can hold.
    assert_eq!(
        compute_settlement(100, -10, 0, i128::MAX),
        Err(Error::ArithmeticOverflow)
    );
}

#[test]
fn settlement_conserves_collateral() {
    for (floor_price, notional, market, collateral) in [
        (100i128, 10i128, 80i128, 500i128),
        (100, 10, 80, 150),
        (100, 10, 150, 500),
        (1_000, 3, 1, 2_000),
        (5, 0, 1, 9),
    ] {
        let s = compute_settlement(floor_price, notional, market, collateral).unwrap();
        assert_eq!(s.to_farmer + s.to_buyer, collateral);
        assert!(0 <= s.to_farmer && s.to_farmer <= collateral);
    }
}

#[test]
fn lower_price_never_pays_less() {
    let mut last = -1;
    for market in (0..=120).rev() {
        let s = compute_settlement(100, 10, market, 500).unwrap();
        assert!(s.to_farmer <= 500);
        if last >= 0 {
            assert!(s.to_farmer >= last);
        }
        last = s.to_farmer;
    }
}

#[test]
fn settle_exactly_at_maturity_is_allowed() {
    let mut pf = agreement(100, 10);
    pf.fund(&address("GBUYER"), 500).unwrap();
    assert_eq!(pf.settle_checks(MATURITY - 1), Err(Error::NotYetMature));
    assert_eq!(pf.settle_checks(MATURITY), Ok(()));
    assert_eq!(
        pf.settle(MATURITY, price(80), 500),
        Ok(Settlement {
            to_farmer: 200,
            to_buyer: 300,
            market_price: 80,
        })
    );
    assert!(pf.settled);
}

#[test]
fn settle_without_price_changes_nothing() {
    let mut pf = agreement(100, 10);
    pf.fund(&address("GBUYER"), 500).unwrap();
    assert_eq!(
        pf.settle(MATURITY + 1, None, 500),
        Err(Error::OracleDataUnavailable)
    );
    assert!(!pf.settled);
    assert_eq!(
        pf.settle(MATURITY + 1, price(90), 500),
        Ok(Settlement {
            to_farmer: 100,
            to_buyer: 400,
            market_price: 90,
        })
    );
}

#[test]
fn grace_boundary_is_exclusive() {
    let mut pf = agreement(100, 10);
    let farmer = address("GFARMER");
    assert_eq!(
        pf.cancel(&farmer, MATURITY + UNFUNDED_CANCEL_GRACE, false),
        Err(Error::GracePeriodNotElapsed)
    );
    assert_eq!(
        pf.cancel(&farmer, MATURITY + UNFUNDED_CANCEL_GRACE + 1, false),
        Ok(false)
    );
    assert!(pf.cancelled);
}

#[test]
fn funded_cancel_refunds_the_buyer() {
    let mut pf = agreement(100, 10);
    let buyer = address("GBUYER");
    pf.fund(&buyer, 500).unwrap();
    assert_eq!(
        pf.cancel_checks(&buyer, MATURITY + SETTLE_FAILURE_GRACE + 1),
        Ok(true)
    );
    assert_eq!(
        pf.cancel(&buyer, MATURITY + SETTLE_FAILURE_GRACE + 1, true),
        Err(Error::GracePeriodNotElapsed)
    );
    assert_eq!(
        pf.cancel(&buyer, MATURITY + SETTLE_FAILURE_GRACE + 1, false),
        Ok(true)
    );
}

#[test]
fn agreement_without_terms() {
    let mut pf = Contract::new();
    assert_eq!(pf.fund(&address("GBUYER"), 500), Err(Error::Unauthorized));
    assert_eq!(pf.settle_checks(0), Err(Error::NotFunded));
    assert_eq!(pf.settle(0, price(80), 500), Err(Error::NotFunded));
    assert_eq!(
        pf.cancel(&address("GFARMER"), u64::MAX, false),
        Err(Error::Unauthorized)
    );
}

#[test]
fn fund_checks_caller_then_amount_then_state() {
    let mut pf = agreement(100, 10);
    assert_eq!(pf.fund(&address("GFARMER"), 0), Err(Error::Unauthorized));
    assert_eq!(pf.fund(&address("GBUYER"), -1), Err(Error::InvalidAmount));
    assert_eq!(pf.fund(&address("GBUYER"), 1), Ok(()));
    assert!(pf.funded);
    assert_eq!(pf.fund(&address("GBUYER"), 1), Err(Error::AlreadyFunded));
}
