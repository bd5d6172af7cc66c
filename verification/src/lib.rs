//! A verified model of a multi-node agricultural commodity price oracle and of
//! a cash-settled price-floor agreement that settles against it.

pub mod primitives;
pub mod window;
pub mod median;
pub mod oracle;
pub mod pricefloor;
