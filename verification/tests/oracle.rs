use agrifeed::oracle::{Address, Asset, Contract, Error, PriceData, Symbol, TtlRenewal};

/// Test fixture: an initialized oracle with three nodes and one commodity,
/// and the ledger clock the operations run at.
struct Fixture {
    oracle: Contract,
    admin: Address,
    nodes: Vec<Address>,
    cocoa: Asset,
    now: u64,
}

fn asset(name: &str) -> Asset {
    Asset::Other(Symbol::new(name))
}

fn address(strkey: &str) -> Address {
    Address::new(strkey)
}

fn setup() -> Fixture {
    let admin = address("GADMIN");
    let nodes = vec![address("GNODE0"), address("GNODE1"), address("GNODE2")];
    let cocoa = asset("COCOA");
    let mut oracle = Contract::new();
    oracle.initialize(admin.clone(), 7, 60, asset("USDC")).unwrap();
    for node in nodes.iter() {
        oracle.add_node(admin.clone(), node.clone()).unwrap();
    }
    oracle.set_threshold(admin.clone(), 3).unwrap();
    oracle.add_commodity(admin.clone(), cocoa.clone()).unwrap();
    Fixture { oracle, admin, nodes, cocoa, now: 0 }
}

/// Submits one price from every node in the fixture.
fn submit_all(f: &mut Fixture, price: i128) {
    for node in f.nodes.clone() {
        f.oracle
            .submit_price(node, f.cocoa.clone(), price, price as u64, f.now)
            .unwrap();
    }
}

fn submit(f: &mut Fixture, node: usize, price: i128, source_ts: u64) -> Result<(), Error> {
    let node = f.nodes[node].clone();
    f.oracle.submit_price(node, f.cocoa.clone(), price, source_ts, f.now)
}

fn finalize(f: &mut Fixture) -> Result<PriceData, Error> {
    let cocoa = f.cocoa.clone();
    f.oracle.finalize_price(&cocoa, f.now)
}

// --- initialize ---

#[test]
fn test_initialize_sets_config() {
    let f = setup();
    assert_eq!(f.oracle.decimals(), 7);
    assert_eq!(f.oracle.resolution(), 60);
    assert_eq!(f.oracle.base(), asset("USDC"));
}

#[test]
fn test_initialize_twice_fails() {
    let mut f = setup();
    assert_eq!(
        f.oracle.initialize(f.admin.clone(), 7, 60, asset("USDC")),
        Err(Error::AlreadyInitialized)
    );
}

#[test]
fn test_initialize_zero_resolution_fails() {
    let mut oracle = Contract::new();
    assert_eq!(
        oracle.initialize(address("GADMIN"), 7, 0, asset("USDC")),
        Err(Error::InvalidThreshold)
    );
}

// --- node management ---

#[test]
fn test_add_and_remove_node() {
    let mut f = setup();
    let extra = address("GEXTRA");
    assert_eq!(f.oracle.add_node(f.admin.clone(), extra.clone()), Ok(true));
    // Removing the extra node again succeeds.
    assert_eq!(f.oracle.remove_node(f.admin.clone(), extra.clone()), Ok(true));
    // Removing an unknown node is a no-op.
    assert_eq!(f.oracle.remove_node(f.admin.clone(), extra.clone()), Ok(false));
}

#[test]
fn test_add_node_twice_is_noop() {
    let mut f = setup();
    let extra = address("GEXTRA");
    assert_eq!(f.oracle.add_node(f.admin.clone(), extra.clone()), Ok(true));
    assert_eq!(f.oracle.add_node(f.admin.clone(), extra.clone()), Ok(false));
}

#[test]
fn test_admin_functions_require_initialization() {
    let mut oracle = Contract::new();
    let admin = address("GADMIN");
    let node = address("GNODE");
    assert_eq!(
        oracle.add_node(admin.clone(), node.clone()),
        Err(Error::NotInitialized)
    );
    assert_eq!(
        oracle.remove_node(admin.clone(), node.clone()),
        Err(Error::NotInitialized)
    );
    assert_eq!(oracle.set_threshold(admin.clone(), 1), Err(Error::NotInitialized));
    assert_eq!(oracle.set_retention(admin.clone(), 90), Err(Error::NotInitialized));
    assert_eq!(
        oracle.add_commodity(admin.clone(), asset("COCOA")),
        Err(Error::NotInitialized)
    );
}

// --- threshold and retention ---

#[test]
fn test_set_threshold_validates() {
    let mut f = setup();
    assert_eq!(
        f.oracle.set_threshold(f.admin.clone(), 4),
        Err(Error::InvalidThreshold)
    );
    assert_eq!(
        f.oracle.set_threshold(f.admin.clone(), 0),
        Err(Error::InvalidThreshold)
    );
    assert_eq!(f.oracle.set_threshold(f.admin.clone(), 2), Ok(()));
}

#[test]
fn test_set_retention_validates() {
    let mut f = setup();
    assert_eq!(
        f.oracle.set_retention(f.admin.clone(), 0),
        Err(Error::InvalidThreshold)
    );
    assert_eq!(f.oracle.set_retention(f.admin.clone(), 5), Ok(()));
}

// --- commodities ---

#[test]
fn test_add_commodity_duplicate_fails() {
    let mut f = setup();
    assert_eq!(
        f.oracle.add_commodity(f.admin.clone(), f.cocoa.clone()),
        Err(Error::CommodityAlreadyExists)
    );
    assert_eq!(f.oracle.add_commodity(f.admin.clone(), asset("COFFEE")), Ok(()));
    assert_eq!(f.oracle.assets().len(), 2);
}

// --- submit_price ---

#[test]
fn test_submit_price_success_and_failure_paths() {
    let mut f = setup();
    let stranger = address("GSTRANGER");
    let coffee = asset("COFFEE");
    let node0 = f.nodes[0].clone();
    assert_eq!(
        f.oracle.submit_price(stranger, f.cocoa.clone(), 100, 100, f.now),
        Err(Error::NotAuthorizedNode)
    );
    assert_eq!(
        f.oracle.submit_price(node0.clone(), coffee, 100, 100, f.now),
        Err(Error::UnknownCommodity)
    );
    assert_eq!(
        f.oracle.submit_price(node0.clone(), f.cocoa.clone(), 0, 100, f.now),
        Err(Error::InvalidPrice)
    );
    assert_eq!(
        f.oracle.submit_price(node0.clone(), f.cocoa.clone(), -5, 100, f.now),
        Err(Error::InvalidPrice)
    );
    assert_eq!(
        f.oracle.submit_price(node0, f.cocoa.clone(), 100, 100, f.now),
        Ok(())
    );
}

#[test]
fn test_submit_price_duplicate_within_window() {
    let mut f = setup();
    f.now = 1_000;
    assert_eq!(submit(&mut f, 0, 100, 100), Ok(()));
    assert_eq!(submit(&mut f, 0, 200, 200), Err(Error::DuplicateSubmission));
    // After the window rolls over the same node may submit again.
    f.now = 1_100;
    assert_eq!(submit(&mut f, 0, 300, 300), Ok(()));
}

// --- finalize_price ---

#[test]
fn test_finalize_price_below_threshold() {
    let mut f = setup();
    submit(&mut f, 0, 100, 100).unwrap();
    submit(&mut f, 1, 200, 200).unwrap();
    assert_eq!(finalize(&mut f), Err(Error::ThresholdNotMet));
}

#[test]
fn test_finalize_price_no_pending() {
    let mut f = setup();
    assert_eq!(finalize(&mut f), Err(Error::NoPendingSubmissions));
    assert_eq!(
        f.oracle.finalize_price(&asset("COFFEE"), f.now),
        Err(Error::NoPendingSubmissions)
    );
}

#[test]
fn test_finalize_price_odd_median() {
    let mut f = setup();
    f.now = 1_000;
    submit(&mut f, 0, 100, 100).unwrap();
    submit(&mut f, 1, 300, 300).unwrap();
    submit(&mut f, 2, 200, 200).unwrap();
    let record = finalize(&mut f).unwrap();
    assert_eq!(
        record,
        PriceData {
            price: 200,
            timestamp: 960,
        }
    );
    assert_eq!(f.oracle.lastprice(&f.cocoa), Some(record));
}

#[test]
fn test_finalize_price_even_median() {
    let mut f = setup();
    // Fourth node brings the submission count to an even number, so the
    // median must average the two middle values.
    let extra = address("GEXTRA");
    f.oracle.add_node(f.admin.clone(), extra.clone()).unwrap();
    f.oracle.set_threshold(f.admin.clone(), 4).unwrap();
    f.now = 1_000;
    submit(&mut f, 0, 100, 100).unwrap();
    submit(&mut f, 1, 400, 400).unwrap();
    submit(&mut f, 2, 200, 200).unwrap();
    f.oracle
        .submit_price(extra, f.cocoa.clone(), 300, 300, f.now)
        .unwrap();
    let record = finalize(&mut f).unwrap();
    assert_eq!(
        record,
        PriceData {
            price: 250,
            timestamp: 960,
        }
    );
}

#[test]
fn test_finalize_price_clears_pending() {
    let mut f = setup();
    f.now = 1_000;
    submit_all(&mut f, 100);
    finalize(&mut f).unwrap();
    // The pending entry is gone; only the history remains to keep alive.
    assert_eq!(
        f.oracle.extend_instance_ttl(&f.cocoa),
        Ok(TtlRenewal {
            pending: false,
            history: true,
        })
    );
    // After finalize, nodes may submit again in the same window.
    assert_eq!(submit(&mut f, 0, 150, 150), Ok(()));
}

#[test]
fn test_finalize_price_prunes_history() {
    let mut f = setup();
    f.oracle.set_threshold(f.admin.clone(), 1).unwrap();
    f.oracle.set_retention(f.admin.clone(), 2).unwrap();
    for ts in [1_000u64, 1_100, 1_200] {
        f.now = ts;
        submit(&mut f, 0, ts as i128, ts).unwrap();
        finalize(&mut f).unwrap();
    }
    let prices = f.oracle.prices(&f.cocoa, 10).unwrap();
    assert_eq!(prices.len(), 2);
    assert_eq!(prices[0].timestamp, 1_080);
    assert_eq!(prices[1].timestamp, 1_200);
}

// --- SEP-40 read functions ---

#[test]
fn test_base_assets_decimals_resolution() {
    let f = setup();
    assert_eq!(f.oracle.base(), asset("USDC"));
    assert_eq!(f.oracle.assets(), vec![f.cocoa.clone()]);
    assert_eq!(f.oracle.decimals(), 7);
    assert_eq!(f.oracle.resolution(), 60);
}

#[test]
fn test_price_matches_rounded_window() {
    let mut f = setup();
    f.now = 1_000;
    submit_all(&mut f, 100);
    finalize(&mut f).unwrap();

    // A query inside the finalized window rounds down to it.
    assert_eq!(
        f.oracle.price(&f.cocoa, 1_000),
        Some(PriceData {
            price: 100,
            timestamp: 960,
        })
    );
    assert_eq!(
        f.oracle.price(&f.cocoa, 1_019),
        Some(PriceData {
            price: 100,
            timestamp: 960,
        })
    );
    // A query in an earlier window with no data returns None.
    assert_eq!(f.oracle.price(&f.cocoa, 950), None);
    // Unknown asset returns None.
    assert_eq!(f.oracle.price(&asset("COFFEE"), 1_000), None);
}

#[test]
fn test_prices_returns_recent_records_oldest_first() {
    let mut f = setup();
    f.oracle.set_threshold(f.admin.clone(), 1).unwrap();
    for (ts, price) in [(1_000u64, 100i128), (1_100, 200), (1_200, 300)] {
        f.now = ts;
        submit(&mut f, 0, price, ts).unwrap();
        finalize(&mut f).unwrap();
    }
    let res = f.oracle.prices(&f.cocoa, 2).unwrap();
    assert_eq!(res.len(), 2);
    assert_eq!(res[0].timestamp, 1_080);
    assert_eq!(res[1].timestamp, 1_200);
    // More records requested than available: all are returned.
    assert_eq!(f.oracle.prices(&f.cocoa, 10).unwrap().len(), 3);
    // Degenerate and unknown requests return None.
    assert_eq!(f.oracle.prices(&f.cocoa, 0), None);
    assert_eq!(f.oracle.prices(&asset("COFFEE"), 2), None);
}

#[test]
fn test_lastprice_returns_most_recent() {
    let mut f = setup();
    assert_eq!(f.oracle.lastprice(&f.cocoa), None);
    f.now = 1_000;
    submit_all(&mut f, 100);
    finalize(&mut f).unwrap();
    f.now = 1_100;
    submit_all(&mut f, 200);
    finalize(&mut f).unwrap();
    assert_eq!(
        f.oracle.lastprice(&f.cocoa),
        Some(PriceData {
            price: 200,
            timestamp: 1_080,
        })
    );
    assert_eq!(f.oracle.lastprice(&asset("COFFEE")), None);
}

// --- TTL housekeeping ---

#[test]
fn test_extend_instance_ttl_is_permissionless() {
    let mut oracle = Contract::new();
    oracle
        .initialize(address("GADMIN"), 7, 60, asset("USDC"))
        .unwrap();
    assert_eq!(
        oracle.extend_instance_ttl(&asset("COCOA")),
        Ok(TtlRenewal {
            pending: false,
            history: false,
        })
    );
}

// --- events ---

#[test]
fn test_finalize_emits_price_finalized_event() {
    let mut f = setup();
    f.now = 1_000;
    submit_all(&mut f, 100);
    // The finalized record is the payload of the `PriceFinalized` event,
    // which carries the asset alongside it.
    let record = finalize(&mut f).unwrap();
    assert_eq!(
        record,
        PriceData {
            price: 100,
            timestamp: 960,
        }
    );
}
