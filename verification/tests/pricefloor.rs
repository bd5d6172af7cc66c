use agrifeed::oracle;
use agrifeed::pricefloor::{
    Address, Asset, Contract, Error, Symbol, SETTLE_FAILURE_GRACE, UNFUNDED_CANCEL_GRACE,
};

/// Test fixture: a price-floor agreement against an oracle that has three
/// nodes and tracks COCOA, the ledger clock, and the settlement-token
/// balances of the farmer, the buyer and the agreement.
struct Fixture {
    pf: Contract,
    oracle: oracle::Contract,
    nodes: Vec<Address>,
    farmer: Address,
    buyer: Address,
    stranger: Address,
    cocoa: Asset,
    floor_price: i128,
    notional: i128,
    maturity_ts: u64,
    now: u64,
    farmer_balance: i128,
    buyer_balance: i128,
    contract_balance: i128,
}

fn address(strkey: &str) -> Address {
    Address::new(strkey)
}

fn cocoa() -> Asset {
    Asset::Other(Symbol::new("COCOA"))
}

/// Builds an initialized agreement. The buyer holds 1,000,000 tokens but
/// does not fund the agreement unless `fund` is called.
fn setup(floor_price: i128, notional: i128) -> Fixture {
    let admin = address("GADMIN");
    let farmer = address("GFARMER");
    let buyer = address("GBUYER");
    let stranger = address("GSTRANGER");
    let nodes = vec![address("GNODE0"), address("GNODE1"), address("GNODE2")];
    let base_ts = 1_000_000u64;
    let maturity_ts = base_ts + 3_600;

    let mut oracle = oracle::Contract::new();
    oracle
        .initialize(admin.clone(), 7, 60, Asset::Other(Symbol::new("USDC")))
        .unwrap();
    for node in nodes.iter() {
        oracle.add_node(admin.clone(), node.clone()).unwrap();
    }
    oracle.set_threshold(admin.clone(), 3).unwrap();
    oracle.add_commodity(admin.clone(), cocoa()).unwrap();

    let mut pf = Contract::new();
    pf.initialize(
        farmer.clone(),
        buyer.clone(),
        cocoa(),
        floor_price,
        notional,
        address("CTOKEN"),
        maturity_ts,
        address("CORACLE"),
    )
    .unwrap();

    Fixture {
        pf,
        oracle,
        nodes,
        farmer,
        buyer,
        stranger,
        cocoa: cocoa(),
        floor_price,
        notional,
        maturity_ts,
        now: base_ts,
        farmer_balance: 0,
        buyer_balance: 1_000_000,
        contract_balance: 0,
    }
}

/// Funds the agreement with `amount` from the buyer's balance.
fn fund(f: &mut Fixture, amount: i128) {
    let buyer = f.buyer.clone();
    try_fund(f, &buyer, amount).unwrap();
}

fn try_fund(f: &mut Fixture, caller: &Address, amount: i128) -> Result<(), Error> {
    f.pf.fund(caller, amount)?;
    f.buyer_balance -= amount;
    f.contract_balance += amount;
    Ok(())
}

/// Makes every oracle node submit `price` and finalizes the window.
fn push_oracle_price(f: &mut Fixture, price: i128) {
    for node in f.nodes.clone() {
        f.oracle
            .submit_price(node, f.cocoa.clone(), price, f.now, f.now)
            .unwrap();
    }
    f.oracle.finalize_price(&f.cocoa, f.now).unwrap();
}

/// Settles against the oracle's last price and the agreement's balance, and
/// makes the transfers; returns the farmer's payout.
fn try_settle(f: &mut Fixture) -> Result<i128, Error> {
    f.pf.settle_checks(f.now)?;
    let last = f.oracle.lastprice(&f.cocoa);
    let s = f.pf.settle(f.now, last, f.contract_balance)?;
    f.farmer_balance += s.to_farmer;
    f.buyer_balance += s.to_buyer;
    f.contract_balance -= s.to_farmer + s.to_buyer;
    Ok(s.to_farmer)
}

/// Cancels on behalf of `caller`, consulting the oracle when needed, and
/// refunds the collateral when due.
fn try_cancel(f: &mut Fixture, caller: &Address) -> Result<(), Error> {
    let funded = f.pf.cancel_checks(caller, f.now)?;
    let has_price = funded && f.oracle.lastprice(&f.cocoa).is_some();
    if f.pf.cancel(caller, f.now, has_price)? {
        f.buyer_balance += f.contract_balance;
        f.contract_balance = 0;
    }
    Ok(())
}

/// Asserts that calling a price-floor function returns the given typed error.
fn assert_error(f: &mut Fixture, case: &str, expected: Error) {
    let buyer = f.buyer.clone();
    let res = match case {
        "initialize" => f.pf.initialize(
            f.farmer.clone(),
            f.buyer.clone(),
            f.cocoa.clone(),
            f.floor_price,
            f.notional,
            address("CTOKEN"),
            f.maturity_ts,
            address("CORACLE"),
        ),
        "fund_twice" => try_fund(f, &buyer, 500),
        "fund_zero" => try_fund(f, &buyer, 0),
        _ => unreachable!("unknown case {case}"),
    };
    assert_eq!(res, Err(expected));
}

// --- initialize ---

#[test]
fn test_initialize_success_and_double_init() {
    let mut f = setup(100, 10);
    assert_error(&mut f, "initialize", Error::AlreadyInitialized);
}

// --- fund ---

#[test]
fn test_fund_moves_tokens() {
    let mut f = setup(100, 10);
    fund(&mut f, 500);
    assert_eq!(f.contract_balance, 500);
    assert_eq!(f.buyer_balance, 1_000_000 - 500);
}

#[test]
fn test_fund_failure_paths() {
    let mut f = setup(100, 10);
    fund(&mut f, 500);
    // Second funding attempt.
    assert_error(&mut f, "fund_twice", Error::AlreadyFunded);
    // Zero and negative amounts are rejected.
    assert_error(&mut f, "fund_zero", Error::InvalidAmount);
    // A stranger cannot fund.
    let stranger = f.stranger.clone();
    assert_eq!(try_fund(&mut f, &stranger, 100), Err(Error::Unauthorized));
}

// --- settle ---

#[test]
fn test_settle_before_maturity_fails() {
    let mut f = setup(100, 10);
    fund(&mut f, 500);
    // Still at base_ts, well before maturity.
    assert_eq!(try_settle(&mut f), Err(Error::NotYetMature));
}

#[test]
fn test_settle_without_funding_fails() {
    let mut f = setup(100, 10);
    f.now = f.maturity_ts + 1;
    assert_eq!(try_settle(&mut f), Err(Error::NotFunded));
}

#[test]
fn test_settle_pays_farmer_below_floor() {
    let mut f = setup(100, 10);
    fund(&mut f, 500);
    f.now = f.maturity_ts + 1;
    push_oracle_price(&mut f, 80);
    // (100 - 80) * 10 = 200 below the 500 collateral cap.
    assert_eq!(try_settle(&mut f), Ok(200));
    assert_eq!(f.farmer_balance, 200);
    assert_eq!(f.buyer_balance, 1_000_000 - 500 + 300);
    assert_eq!(f.contract_balance, 0);
}

#[test]
fn test_settle_caps_payout_at_collateral() {
    let mut f = setup(100, 10);
    fund(&mut f, 150);
    f.now = f.maturity_ts + 1;
    push_oracle_price(&mut f, 80);
    // (100 - 80) * 10 = 200 exceeds the 150 collateral, so payout is capped.
    assert_eq!(try_settle(&mut f), Ok(150));
    assert_eq!(f.farmer_balance, 150);
    assert_eq!(f.buyer_balance, 1_000_000 - 150);
    assert_eq!(f.contract_balance, 0);
}

#[test]
fn test_settle_refunds_at_or_above_floor() {
    let mut f = setup(100, 10);
    fund(&mut f, 500);
    f.now = f.maturity_ts + 1;
    push_oracle_price(&mut f, 150);
    assert_eq!(try_settle(&mut f), Ok(0));
    assert_eq!(f.farmer_balance, 0);
    assert_eq!(f.buyer_balance, 1_000_000);
    assert_eq!(f.contract_balance, 0);
}

#[test]
fn test_settle_once_only() {
    let mut f = setup(100, 10);
    fund(&mut f, 500);
    f.now = f.maturity_ts + 1;
    push_oracle_price(&mut f, 80);
    try_settle(&mut f).unwrap();
    assert_eq!(try_settle(&mut f), Err(Error::AlreadySettled));
}

#[test]
fn test_settle_without_oracle_price() {
    let mut f = setup(100, 10);
    fund(&mut f, 500);
    f.now = f.maturity_ts + 1;
    // No price was ever finalized for COCOA, so settlement is impossible.
    assert_eq!(try_settle(&mut f), Err(Error::OracleDataUnavailable));
    // The funded agreement can be cancelled once the further grace window
    // past maturity has elapsed, refunding the collateral to the buyer.
    f.now = f.maturity_ts + SETTLE_FAILURE_GRACE + 1;
    let buyer = f.buyer.clone();
    assert_eq!(try_cancel(&mut f, &buyer), Ok(()));
    assert_eq!(f.buyer_balance, 1_000_000);
}

#[test]
fn test_cancel_funded_refuses_when_oracle_has_price() {
    let mut f = setup(100, 10);
    fund(&mut f, 500);
    f.now = f.maturity_ts + 1;
    push_oracle_price(&mut f, 80);
    // Even well past the grace window, a funded agreement with a priced
    // commodity must settle rather than cancel.
    f.now = f.maturity_ts + SETTLE_FAILURE_GRACE * 2;
    let buyer = f.buyer.clone();
    assert_eq!(try_cancel(&mut f, &buyer), Err(Error::GracePeriodNotElapsed));
}

// --- cancel ---

#[test]
fn test_cancel_requires_party() {
    let mut f = setup(100, 10);
    let stranger = f.stranger.clone();
    assert_eq!(try_cancel(&mut f, &stranger), Err(Error::Unauthorized));
}

#[test]
fn test_cancel_unfunded_before_grace_fails() {
    let mut f = setup(100, 10);
    // After maturity but inside the 48-hour grace window.
    f.now = f.maturity_ts + 3_600;
    let farmer = f.farmer.clone();
    assert_eq!(try_cancel(&mut f, &farmer), Err(Error::GracePeriodNotElapsed));
}

#[test]
fn test_cancel_unfunded_after_grace_succeeds() {
    let mut f = setup(100, 10);
    f.now = f.maturity_ts + UNFUNDED_CANCEL_GRACE + 1;
    let farmer = f.farmer.clone();
    assert_eq!(try_cancel(&mut f, &farmer), Ok(()));
}

#[test]
fn test_cancel_funded_requires_grace_elapsed() {
    let mut f = setup(100, 10);
    fund(&mut f, 500);
    // Maturity plus the grace window has not elapsed yet and the oracle is
    // silent, so cancel is premature.
    f.now = f.maturity_ts + SETTLE_FAILURE_GRACE - 1;
    let buyer = f.buyer.clone();
    assert_eq!(try_cancel(&mut f, &buyer), Err(Error::GracePeriodNotElapsed));
    // Once the grace window has elapsed with the oracle still silent, the
    // buyer can cancel and recover the collateral.
    f.now = f.maturity_ts + SETTLE_FAILURE_GRACE + 1;
    assert_eq!(try_cancel(&mut f, &buyer), Ok(()));
    assert_eq!(f.contract_balance, 0);
    assert_eq!(f.buyer_balance, 1_000_000);
}

#[test]
fn test_cancel_after_settle_fails() {
    let mut f = setup(100, 10);
    fund(&mut f, 500);
    f.now = f.maturity_ts + 1;
    push_oracle_price(&mut f, 80);
    try_settle(&mut f).unwrap();
    let farmer = f.farmer.clone();
    assert_eq!(try_cancel(&mut f, &farmer), Err(Error::AlreadySettled));
}
