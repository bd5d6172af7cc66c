//! TTL housekeeping: which storage entries a keep-alive call must extend.

use crate::oracle::errors::Error;
use crate::oracle::state::Contract;
use crate::primitives::Asset;
use vstd::prelude::*;

verus! {

/// The persistent entries of one asset whose time-to-live is to be extended
/// alongside the instance storage. An entry is extended only when it exists.
#[derive(Clone, Copy, Debug, PartialEq, Eq, Structural)]
pub struct TtlRenewal {
    /// The asset has pending submissions.
    pub pending: bool,
    /// The asset has finalized history.
    pub history: bool,
}

impl Contract {
    /// Decides the keep-alive of the oracle's storage for `asset`.
    ///
    /// Permissionless. The instance storage (the configuration) is always
    /// extended; the pending submissions and the finalized history of
    /// `asset` are extended when they exist.
    ///
    /// Returns `Err(Error::NotInitialized)` before initialization.
    pub fn extend_instance_ttl(&self, asset: &Asset) -> (r: Result<TtlRenewal, Error>)
        ensures
            !self.initialized() ==> r == Err::<TtlRenewal, Error>(Error::NotInitialized),
            self.initialized() ==> r == Ok::<TtlRenewal, Error>(
                TtlRenewal {
                    pending: self.pending_of(asset@).len() > 0,
                    history: self.history_of(asset@).len() > 0,
                },
            ),
    {
        self.require_initialized()?;
        match self.find_feed(asset) {
            Some(i) => Ok(
                TtlRenewal {
                    pending: self.feeds[i].pending.len() > 0,
                    history: self.feeds[i].history.len() > 0,
                },
            ),
            None => Ok(TtlRenewal { pending: false, history: false }),
        }
    }
}

} // verus!
