use crate::primitives::Address;
use vstd::prelude::*;

verus! {

/// A single price point for an asset, as defined by SEP-40.
///
/// `price` is expressed in units of `1 / 10^decimals` of the base asset.
/// `timestamp` is a Unix timestamp in seconds, rounded down to the oracle's
/// resolution window.
#[derive(Clone, Copy, Debug, PartialEq, Eq, Structural)]
pub struct PriceData {
    pub price: i128,
    pub timestamp: u64,
}

/// A single price submission from one node for one asset.
#[derive(Debug, PartialEq, Eq)]
pub struct Submission {
    /// Address of the submitting node.
    pub node: Address,
    /// Submitted price in units of `1 / 10^decimals` of the base asset.
    pub price: i128,
    /// Unix timestamp, in seconds, at which the node observed the price.
    pub source_ts: u64,
    /// Ledger timestamp, in seconds, at which the submission was recorded.
    pub submitted_at: u64,
}

/// The prices of a list of submissions, in order.
pub open spec fn prices_of(subs: Seq<Submission>) -> Seq<i128> {
    subs.map_values(|s: Submission| s.price)
}

} // verus!
