//! The SEP-40 price oracle: authorized nodes submit price observations for
//! tracked commodities, and a permissionless finalize step aggregates the
//! pending submissions of a resolution window into a single median price.

pub mod admin;
pub mod errors;
pub mod ingest;
pub mod interface;
pub mod laws;
pub mod state;
pub mod storage;
pub mod types;

pub use crate::primitives::{Address, Asset, Symbol};
pub use errors::Error;
pub use state::{Config, Contract, Feed, DEFAULT_RETENTION};
pub use storage::TtlRenewal;
pub use types::{PriceData, Submission};
