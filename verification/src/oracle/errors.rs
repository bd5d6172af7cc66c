use vstd::prelude::*;

verus! {

/// Errors returned by the oracle.
///
/// Every fallible operation returns `Result<T, Error>` except the SEP-40 read
/// functions (`price`, `prices`, `lastprice`), which return `Option`.
#[derive(Clone, Copy, Debug, PartialEq, Eq, Structural, PartialOrd, Ord)]
pub enum Error {
    /// `initialize` was called more than once.
    AlreadyInitialized,
    /// The contract has not been initialized yet.
    NotInitialized,
    /// The caller is not the contract administrator.
    NotAdmin,
    /// The caller is not an authorized price node.
    NotAuthorizedNode,
    /// The asset is not tracked as a commodity.
    UnknownCommodity,
    /// The commodity is already tracked.
    CommodityAlreadyExists,
    /// Fewer pending submissions than the configured threshold.
    ThresholdNotMet,
    /// There are no pending submissions to finalize.
    NoPendingSubmissions,
    /// The node already has a pending submission in the current window.
    DuplicateSubmission,
    /// The submitted price is not positive, or the median arithmetic
    /// overflowed.
    InvalidPrice,
    /// The threshold is zero or exceeds the number of nodes. Also returned
    /// by `initialize` when `resolution` is zero and by `set_retention` when
    /// `retention` is zero.
    InvalidThreshold,
}

} // verus!
