//! The agreement's state and its lifecycle: initialize, fund, settle and
//! cancel.
//!
//! Authorization of the named parties, token transfers, the ledger clock and
//! the oracle query are the host's part: each operation here takes the
//! values they produce (`now`, the oracle's last price, the collateral
//! balance) and says which transfers are due.

use crate::oracle::types::PriceData;
use crate::pricefloor::errors::Error;
use crate::pricefloor::settlement::{compute_settlement, settlement_for, Settlement};
use crate::primitives::{Address, Asset, SameAs};
use vstd::prelude::*;

verus! {

/// Grace period, in seconds, after maturity during which an unfunded
/// agreement cannot be cancelled.
pub const UNFUNDED_CANCEL_GRACE: u64 = 48 * 60 * 60;

/// Further grace period, in seconds after maturity, that must elapse with the
/// oracle still silent before a funded agreement can be cancelled and the
/// collateral refunded.
pub const SETTLE_FAILURE_GRACE: u64 = 48 * 60 * 60;

/// The agreed terms.
pub struct Terms {
    /// The protected party.
    pub farmer: Address,
    /// The collateral provider.
    pub buyer: Address,
    /// The commodity, as reported by the oracle.
    pub commodity: Asset,
    /// The guaranteed minimum price per unit, in the oracle's price units.
    pub floor_price: i128,
    /// The quantity of commodity covered.
    pub notional: i128,
    /// The token used for collateral and payout.
    pub settlement_token: Address,
    /// Unix timestamp, in seconds, at which the agreement matures.
    pub maturity_ts: u64,
    /// The SEP-40 oracle that prices the commodity.
    pub oracle: Address,
}

/// The agreement. `terms` is `None` until `initialize` succeeds.
pub struct Contract {
    pub terms: Option<Terms>,
    /// The buyer has deposited the collateral.
    pub funded: bool,
    /// The agreement has been settled.
    pub settled: bool,
    /// `cancel` has succeeded at least once.
    pub cancelled: bool,
}

/// More than `grace` seconds have passed since `maturity_ts` at time `now`.
pub open spec fn grace_elapsed(now: u64, maturity_ts: u64, grace: u64) -> bool {
    now as int > maturity_ts as int + grace as int
}

fn after_grace(now: u64, maturity_ts: u64, grace: u64) -> (r: bool)
    ensures
        r == grace_elapsed(now, maturity_ts, grace),
{
    now > maturity_ts && now - maturity_ts > grace
}

impl Contract {
    pub open spec fn initialized(&self) -> bool {
        self.terms is Some
    }

    /// The terms of an initialized agreement.
    pub open spec fn agreed(&self) -> Terms {
        self.terms->0
    }

    /// Nothing is funded, settled or cancelled before the terms exist.
    pub open spec fn well_formed(&self) -> bool {
        !self.initialized() ==> !self.funded && !self.settled && !self.cancelled
    }

    /// `caller` is the farmer or the buyer.
    pub open spec fn is_party(&self, caller: Seq<char>) -> bool {
        self.agreed().farmer@ == caller || self.agreed().buyer@ == caller
    }

    /// The outcome of `fund` by `caller` with `amount`.
    pub open spec fn fund_result(&self, caller: Seq<char>, amount: i128) -> Result<(), Error> {
        if !self.initialized() || self.agreed().buyer@ != caller {
            Err(Error::Unauthorized)
        } else if amount <= 0 {
            Err(Error::InvalidAmount)
        } else if self.funded {
            Err(Error::AlreadyFunded)
        } else {
            Ok(())
        }
    }

    /// The checks that `settle` makes before it consults the oracle.
    pub open spec fn settle_check_result(&self, now: u64) -> Result<(), Error> {
        if !self.initialized() {
            Err(Error::NotFunded)
        } else if self.settled {
            Err(Error::AlreadySettled)
        } else if now < self.agreed().maturity_ts {
            Err(Error::NotYetMature)
        } else if !self.funded {
            Err(Error::NotFunded)
        } else {
            Ok(())
        }
    }

    /// The outcome of `settle` at time `now`, given the oracle's last price
    /// of the commodity and the collateral held.
    pub open spec fn settle_result(&self, now: u64, last_price: Option<PriceData>, collateral: i128) -> Result<
        Settlement,
        Error,
    > {
        match self.settle_check_result(now) {
            Err(e) => Err(e),
            Ok(_) => match last_price {
                None => Err(Error::OracleDataUnavailable),
                Some(p) => settlement_for(
                    self.agreed().floor_price,
                    self.agreed().notional,
                    p.price,
                    collateral,
                ),
            },
        }
    }

    /// The checks that `cancel` makes before it consults the oracle; `Ok`
    /// carries whether the agreement is funded, in which case the oracle
    /// must still be silent.
    pub open spec fn cancel_check_result(&self, caller: Seq<char>, now: u64) -> Result<bool, Error> {
        if !self.initialized() || !self.is_party(caller) {
            Err(Error::Unauthorized)
        } else if self.settled {
            Err(Error::AlreadySettled)
        } else if !self.funded {
            if grace_elapsed(now, self.agreed().maturity_ts, UNFUNDED_CANCEL_GRACE) {
                Ok(false)
            } else {
                Err(Error::GracePeriodNotElapsed)
            }
        } else if grace_elapsed(now, self.agreed().maturity_ts, SETTLE_FAILURE_GRACE) {
            Ok(true)
        } else {
            Err(Error::GracePeriodNotElapsed)
        }
    }

    /// The outcome of `cancel`: `Ok(true)` when the collateral is to be
    /// refunded to the buyer, `Ok(false)` for an unfunded agreement.
    pub open spec fn cancel_result(&self, caller: Seq<char>, now: u64, oracle_has_price: bool) -> Result<
        bool,
        Error,
    > {
        match self.cancel_check_result(caller, now) {
            Err(e) => Err(e),
            Ok(funded) => if funded && oracle_has_price {
                Err(Error::GracePeriodNotElapsed)
            } else {
                Ok(funded)
            },
        }
    }

    /// The state a successful `fund` leaves.
    pub open spec fn after_fund(self) -> Contract {
        Contract { terms: self.terms, funded: true, settled: self.settled, cancelled: self.cancelled }
    }

    /// The state a successful `settle` leaves.
    pub open spec fn after_settle(self) -> Contract {
        Contract { terms: self.terms, funded: self.funded, settled: true, cancelled: self.cancelled }
    }

    /// The state a successful `cancel` leaves.
    pub open spec fn after_cancel(self) -> Contract {
        Contract { terms: self.terms, funded: self.funded, settled: self.settled, cancelled: true }
    }

    /// A freshly deployed agreement without terms.
    pub fn new() -> (r: Contract)
        ensures
            !r.initialized(),
            !r.funded && !r.settled && !r.cancelled,
    {
        Contract { terms: None, funded: false, settled: false, cancelled: false }
    }

    /// Stores the agreement terms; both parties have authorized the call.
    ///
    /// Fails with `Error::AlreadyInitialized` on a second call, changing
    /// nothing.
    pub fn initialize(
        &mut self,
        farmer: Address,
        buyer: Address,
        commodity: Asset,
        floor_price: i128,
        notional: i128,
        settlement_token: Address,
        maturity_ts: u64,
        oracle: Address,
    ) -> (r: Result<(), Error>)
        requires
            old(self).well_formed(),
        ensures
            final(self).well_formed(),
            old(self).initialized() ==> r == Err::<(), Error>(Error::AlreadyInitialized) && *final(self) == *old(self),
            !old(self).initialized() ==> r is Ok && *final(self) == (Contract {
                terms: Some(
                    Terms {
                        farmer,
                        buyer,
                        commodity,
                        floor_price,
                        notional,
                        settlement_token,
                        maturity_ts,
                        oracle,
                    },
                ),
                funded: false,
                settled: false,
                cancelled: false,
            }),
    {
        if self.terms.is_some() {
            return Err(Error::AlreadyInitialized);
        }
        self.terms = Some(
            Terms {
                farmer,
                buyer,
                commodity,
                floor_price,
                notional,
                settlement_token,
                maturity_ts,
                oracle,
            },
        );
        Ok(())
    }

    /// Records the buyer's deposit of `amount` of the settlement token; the
    /// transfer itself follows a successful call.
    ///
    /// Fails with `Error::Unauthorized` when `caller` is not the buyer (or
    /// there are no terms yet), `Error::InvalidAmount` when `amount` is not
    /// positive and `Error::AlreadyFunded` on repeat funding; a failed call
    /// changes nothing.
    pub fn fund(&mut self, caller: &Address, amount: i128) -> (r: Result<(), Error>)
        requires
            old(self).well_formed(),
        ensures
            final(self).well_formed(),
            r == old(self).fund_result(caller@, amount),
            r is Err ==> *final(self) == *old(self),
            r is Ok ==> *final(self) == old(self).after_fund(),
    {
        match &self.terms {
            None => {
                return Err(Error::Unauthorized);
            },
            Some(t) => {
                if !t.buyer.same_as(caller) {
                    return Err(Error::Unauthorized);
                }
            },
        }
        if amount <= 0 {
            return Err(Error::InvalidAmount);
        }
        if self.funded {
            return Err(Error::AlreadyFunded);
        }
        self.funded = true;
        Ok(())
    }

    /// The checks `settle` makes before the oracle is consulted: terms
    /// exist, not yet settled, mature at `now`, and funded.
    pub fn settle_checks(&self, now: u64) -> (r: Result<(), Error>)
        ensures
            r == self.settle_check_result(now),
    {
        match &self.terms {
            None => Err(Error::NotFunded),
            Some(t) => {
                if self.settled {
                    Err(Error::AlreadySettled)
                } else if now < t.maturity_ts {
                    Err(Error::NotYetMature)
                } else if !self.funded {
                    Err(Error::NotFunded)
                } else {
                    Ok(())
                }
            },
        }
    }

    /// Settles the agreement at time `now` against the oracle's last price
    /// of the commodity and the `collateral` the agreement holds.
    ///
    /// Fails, in this order, with `Error::NotFunded` when there are no
    /// terms, `Error::AlreadySettled`, `Error::NotYetMature` before maturity,
    /// `Error::NotFunded`, `Error::OracleDataUnavailable` when the oracle has
    /// no price (no payout is ever fabricated), and
    /// `Error::ArithmeticOverflow`. A failed call changes nothing; a
    /// successful one marks the agreement settled and says how the
    /// collateral is split.
    pub fn settle(
        &mut self,
        now: u64,
        last_price: Option<PriceData>,
        collateral: i128,
    ) -> (r: Result<Settlement, Error>)
        requires
            old(self).well_formed(),
        ensures
            final(self).well_formed(),
            r == old(self).settle_result(now, last_price, collateral),
            last_price is None ==> r is Err,
            r is Ok ==> last_price is Some && r->Ok_0.market_price == last_price->0.price
                && r->Ok_0.to_farmer + r->Ok_0.to_buyer == collateral,
            r is Err ==> *final(self) == *old(self),
            r is Ok ==> *final(self) == old(self).after_settle(),
    {
        if let Err(e) = self.settle_checks(now) {
            return Err(e);
        }
        let market = match last_price {
            None => {
                return Err(Error::OracleDataUnavailable);
            },
            Some(p) => p.price,
        };
        let (floor_price, notional) = match &self.terms {
            Some(t) => (t.floor_price, t.notional),
            None => {
                return Err(Error::NotFunded);
            },
        };
        let settlement = compute_settlement(floor_price, notional, market, collateral);
        proof {
            if settlement is Ok {
                crate::pricefloor::laws::law_settlement_conserves_collateral(
                    floor_price,
                    notional,
                    market,
                    collateral,
                );
            }
        }
        if settlement.is_ok() {
            self.settled = true;
        }
        settlement
    }

    /// The checks `cancel` makes before the oracle is consulted. `Ok(true)`
    /// means the agreement is funded and past its grace window, so the
    /// oracle must be asked whether it has a price; `Ok(false)` means an
    /// unfunded agreement that may be cancelled.
    pub fn cancel_checks(&self, caller: &Address, now: u64) -> (r: Result<bool, Error>)
        ensures
            r == self.cancel_check_result(caller@, now),
    {
        let t = match &self.terms {
            None => {
                return Err(Error::Unauthorized);
            },
            Some(t) => t,
        };
        if !t.farmer.same_as(caller) && !t.buyer.same_as(caller) {
            return Err(Error::Unauthorized);
        }
        if self.settled {
            return Err(Error::AlreadySettled);
        }
        if !self.funded {
            if after_grace(now, t.maturity_ts, UNFUNDED_CANCEL_GRACE) {
                Ok(false)
            } else {
                Err(Error::GracePeriodNotElapsed)
            }
        } else if after_grace(now, t.maturity_ts, SETTLE_FAILURE_GRACE) {
            Ok(true)
        } else {
            Err(Error::GracePeriodNotElapsed)
        }
    }

    /// Cancels the agreement at time `now`, called by the farmer or the
    /// buyer. `oracle_has_price` tells whether the oracle has a last price
    /// for the commodity; it matters only for a funded agreement.
    ///
    /// An unfunded agreement can be cancelled once maturity plus
    /// [`UNFUNDED_CANCEL_GRACE`] has passed. A funded one can be cancelled
    /// once maturity plus [`SETTLE_FAILURE_GRACE`] has passed while the
    /// oracle still has no price; the full collateral is then refunded to the
    /// buyer (`Ok(true)`). If the oracle has a price, the agreement must
    /// settle instead and the cancel is refused with
    /// `Error::GracePeriodNotElapsed`.
    ///
    /// Fails with `Error::Unauthorized` for any other caller (or when there
    /// are no terms) and with `Error::AlreadySettled` after settlement; a
    /// failed call changes nothing.
    pub fn cancel(&mut self, caller: &Address, now: u64, oracle_has_price: bool) -> (r: Result<bool, Error>)
        requires
            old(self).well_formed(),
        ensures
            final(self).well_formed(),
            r == old(self).cancel_result(caller@, now, oracle_has_price),
            r is Err ==> *final(self) == *old(self),
            r is Ok ==> *final(self) == old(self).after_cancel(),
    {
        let funded = match self.cancel_checks(caller, now) {
            Err(e) => {
                return Err(e);
            },
            Ok(funded) => funded,
        };
        if funded && oracle_has_price {
            return Err(Error::GracePeriodNotElapsed);
        }
        self.cancelled = true;
        Ok(funded)
    }
}

} // verus!
