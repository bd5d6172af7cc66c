use vstd::prelude::*;

verus! {

/// Errors returned by the price-floor agreement.
#[derive(Clone, Copy, Debug, PartialEq, Eq, Structural, PartialOrd, Ord)]
pub enum Error {
    /// `initialize` was called more than once.
    AlreadyInitialized,
    /// `settle` was called but the buyer never funded the agreement.
    NotFunded,
    /// `fund` was called after the agreement was already funded.
    AlreadyFunded,
    /// The agreement was already settled.
    AlreadySettled,
    /// `settle` was called before the maturity timestamp.
    NotYetMature,
    /// The oracle has no price for the commodity, so no settlement price can
    /// be fabricated.
    OracleDataUnavailable,
    /// `cancel` was called before the applicable grace period elapsed, or
    /// while the oracle has a price for a funded agreement.
    GracePeriodNotElapsed,
    /// The caller is not the party the operation requires: `fund` must be
    /// called by the buyer and `cancel` by the farmer or the buyer.
    Unauthorized,
    /// The funding amount is not positive.
    InvalidAmount,
    /// Payout arithmetic overflowed `i128`.
    ArithmeticOverflow,
}

} // verus!
