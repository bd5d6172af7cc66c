//! A cash-settled price-floor agreement between a farmer and a buyer. The
//! buyer deposits collateral; after maturity, if the oracle's last price of
//! the commodity is below the agreed floor, the farmer receives the shortfall
//! (capped at the collateral) and the buyer the rest; otherwise the buyer
//! gets the collateral back. No physical delivery and no custody of goods.

pub mod contract;
pub mod errors;
pub mod laws;
pub mod settlement;

pub use crate::primitives::{Address, Asset, Symbol};
pub use contract::{Contract, Terms, SETTLE_FAILURE_GRACE, UNFUNDED_CANCEL_GRACE};
pub use errors::Error;
pub use settlement::Settlement;
