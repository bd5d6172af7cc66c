//! End-to-end flow: the oracle ingests three node prices for COCOA and
//! finalizes the median, then a funded price-floor agreement matures and
//! settles against the oracle price.

use agrifeed::oracle;
use agrifeed::pricefloor;
use agrifeed::primitives::{Address, Asset, Symbol};

fn cocoa() -> Asset {
    Asset::Other(Symbol::new("COCOA"))
}

#[test]
fn full_flow_oracle_to_settlement() {
    let admin = Address::new("GADMIN");
    let farmer = Address::new("GFARMER");
    let buyer = Address::new("GBUYER");
    let nodes = vec![
        Address::new("GNODE0"),
        Address::new("GNODE1"),
        Address::new("GNODE2"),
    ];
    let mut buyer_balance: i128 = 10_000;
    let mut farmer_balance: i128 = 0;
    let mut agreement_balance: i128 = 0;

    // --- configure the oracle ---
    let mut oracle = oracle::Contract::new();
    oracle
        .initialize(admin.clone(), 7, 60, Asset::Other(Symbol::new("USDC")))
        .unwrap();
    for node in nodes.iter() {
        oracle.add_node(admin.clone(), node.clone()).unwrap();
    }
    oracle.set_threshold(admin.clone(), 3).unwrap();
    oracle.add_commodity(admin.clone(), cocoa()).unwrap();
    assert_eq!(oracle.assets(), vec![cocoa()]);

    // --- three nodes submit different prices, then finalize ---
    let base_ts = 5_000_000u64;
    let maturity_ts = base_ts + 3_600;
    oracle
        .submit_price(nodes[0].clone(), cocoa(), 90, base_ts - 2, base_ts)
        .unwrap();
    oracle
        .submit_price(nodes[1].clone(), cocoa(), 110, base_ts - 1, base_ts)
        .unwrap();
    oracle
        .submit_price(nodes[2].clone(), cocoa(), 100, base_ts, base_ts)
        .unwrap();
    let finalized = oracle.finalize_price(&cocoa(), base_ts).unwrap();
    assert_eq!(finalized.price, 100);
    assert_eq!(oracle.lastprice(&cocoa()), Some(finalized));
    assert_eq!(oracle.prices(&cocoa(), 1), Some(vec![finalized]));

    // --- the price-floor agreement against the oracle ---
    // The finalized median price is 100. A floor of 120 and notional of 10
    // settle a payout of (120 - 100) * 10 = 200 to the farmer, refunding the
    // remaining 800 of the 1,000 collateral to the buyer.
    let mut pf = pricefloor::Contract::new();
    pf.initialize(
        farmer.clone(),
        buyer.clone(),
        cocoa(),
        120,
        10,
        Address::new("CTOKEN"),
        maturity_ts,
        Address::new("CORACLE"),
    )
    .unwrap();
    pf.fund(&buyer, 1_000).unwrap();
    buyer_balance -= 1_000;
    agreement_balance += 1_000;
    assert_eq!(agreement_balance, 1_000);
    assert_eq!(buyer_balance, 9_000);

    // --- settle after maturity ---
    let now = maturity_ts + 60;
    pf.settle_checks(now).unwrap();
    let settlement = pf
        .settle(now, oracle.lastprice(&cocoa()), agreement_balance)
        .unwrap();
    farmer_balance += settlement.to_farmer;
    buyer_balance += settlement.to_buyer;
    agreement_balance -= settlement.to_farmer + settlement.to_buyer;
    assert_eq!(settlement.to_farmer, 200);
    assert_eq!(farmer_balance, 200);
    assert_eq!(buyer_balance, 9_800);
    assert_eq!(agreement_balance, 0);
}
