//! Administration: one-time setup, price nodes, threshold, retention and the
//! list of tracked commodities.
//!
//! Every operation after `initialize` names its caller in `admin`; the host
//! checks the caller's authorization before the operation runs, and the
//! operation refuses any caller other than the stored administrator with
//! `Error::NotAdmin`.

use crate::oracle::errors::Error;
use crate::oracle::state::{Config, Contract, DEFAULT_RETENTION};
use crate::primitives::{
    contains, contains_id, lemma_with_added_distinct, lemma_with_removed_distinct, position_of,
    with_added, with_removed, Address, Asset, SameAs,
};
use vstd::prelude::*;

verus! {

impl Contract {
    /// One-time setup of the oracle.
    ///
    /// - `admin`: the address that will manage nodes, commodities and
    ///   configuration.
    /// - `decimals`: number of decimals used to represent prices.
    /// - `resolution`: length of one price window in seconds; at least 1.
    /// - `base_asset`: the base asset of this feed, per SEP-40.
    ///
    /// Starts with no nodes, a threshold of zero (which no finalize can
    /// meet), no commodities and the default retention limit.
    ///
    /// Fails with `Error::AlreadyInitialized` on a second call and with
    /// `Error::InvalidThreshold` when `resolution` is zero; a failed call
    /// changes nothing.
    pub fn initialize(
        &mut self,
        admin: Address,
        decimals: u32,
        resolution: u32,
        base_asset: Asset,
    ) -> (r: Result<(), Error>)
        requires
            old(self).well_formed(),
        ensures
            final(self).well_formed(),
            old(self).keeps_setup(&*final(self)),
            old(self).initialized() ==> r == Err::<(), Error>(Error::AlreadyInitialized),
            !old(self).initialized() && resolution == 0 ==> r == Err::<(), Error>(
                Error::InvalidThreshold,
            ),
            r is Err ==> *final(self) == *old(self),
            !old(self).initialized() && resolution > 0 ==> {
                &&& r is Ok
                &&& final(self).initialized()
                &&& final(self).cfg().admin == admin
                &&& final(self).cfg().nodes@.len() == 0
                &&& final(self).cfg().threshold == 0
                &&& final(self).cfg().decimals == decimals
                &&& final(self).cfg().resolution == resolution
                &&& final(self).cfg().base_asset == base_asset
                &&& final(self).cfg().commodities@.len() == 0
                &&& final(self).cfg().retention == DEFAULT_RETENTION
                &&& final(self).feeds == old(self).feeds
            },
    {
        if self.config.is_some() {
            return Err(Error::AlreadyInitialized);
        }
        if resolution == 0 {
            return Err(Error::InvalidThreshold);
        }
        self.config = Some(
            Config {
                admin,
                nodes: Vec::new(),
                threshold: 0,
                decimals,
                resolution,
                base_asset,
                commodities: Vec::new(),
                retention: DEFAULT_RETENTION,
            },
        );
        Ok(())
    }

    /// Adds a price node.
    ///
    /// Returns `Ok(true)` when the node was added and `Ok(false)` when it was
    /// already present, in which case nothing changes. Fails with
    /// `Error::NotInitialized` before initialization and with
    /// `Error::NotAdmin` when `admin` is not the stored administrator; a
    /// failed call changes nothing.
    pub fn add_node(&mut self, admin: Address, node: Address) -> (r: Result<bool, Error>)
        requires
            old(self).well_formed(),
        ensures
            final(self).well_formed(),
            old(self).keeps_setup(&*final(self)),
            !old(self).initialized() ==> r == Err::<bool, Error>(Error::NotInitialized),
            old(self).initialized() && !old(self).is_admin(admin@) ==> r == Err::<bool, Error>(
                Error::NotAdmin,
            ),
            r is Err ==> *final(self) == *old(self),
            old(self).is_admin(admin@) ==> {
                &&& r == Ok::<bool, Error>(!contains_id(old(self).cfg().nodes@, node@))
                &&& final(self).cfg().nodes@ == with_added(old(self).cfg().nodes@, node)
                &&& final(self).config == Some(
                    Config { nodes: final(self).cfg().nodes, ..old(self).cfg() },
                )
                &&& final(self).feeds == old(self).feeds
            },
    {
        proof {
            if self.initialized() {
                lemma_with_added_distinct(self.cfg().nodes@, node);
            }
        }
        match &mut self.config {
            None => Err(Error::NotInitialized),
            Some(cfg) => {
                if !admin.same_as(&cfg.admin) {
                    return Err(Error::NotAdmin);
                }
                if contains(&cfg.nodes, &node) {
                    return Ok(false);
                }
                cfg.nodes.push(node);
                Ok(true)
            },
        }
    }

    /// Removes a price node. Already-finalized prices are not affected.
    ///
    /// Returns `Ok(true)` when the node was removed and `Ok(false)` when it
    /// was not present, in which case nothing changes. Fails with
    /// `Error::NotInitialized` before initialization and with
    /// `Error::NotAdmin` when `admin` is not the stored administrator; a
    /// failed call changes nothing.
    pub fn remove_node(&mut self, admin: Address, node: Address) -> (r: Result<bool, Error>)
        requires
            old(self).well_formed(),
        ensures
            final(self).well_formed(),
            old(self).keeps_setup(&*final(self)),
            !old(self).initialized() ==> r == Err::<bool, Error>(Error::NotInitialized),
            old(self).initialized() && !old(self).is_admin(admin@) ==> r == Err::<bool, Error>(
                Error::NotAdmin,
            ),
            r is Err ==> *final(self) == *old(self),
            old(self).is_admin(admin@) ==> {
                &&& r == Ok::<bool, Error>(contains_id(old(self).cfg().nodes@, node@))
                &&& final(self).cfg().nodes@ == with_removed(old(self).cfg().nodes@, node@)
                &&& !contains_id(final(self).cfg().nodes@, node@)
                &&& forall|m: Seq<char>|
                    #[trigger] contains_id(final(self).cfg().nodes@, m) <==> (contains_id(
                        old(self).cfg().nodes@,
                        m,
                    ) && m != node@)
                &&& final(self).cfg().nodes@.len() == old(self).cfg().nodes@.len() - if contains_id(
                    old(self).cfg().nodes@,
                    node@,
                ) {
                    1int
                } else {
                    0int
                }
                &&& final(self).config == Some(
                    Config { nodes: final(self).cfg().nodes, ..old(self).cfg() },
                )
                &&& final(self).feeds == old(self).feeds
            },
    {
        proof {
            if self.initialized() {
                lemma_with_removed_distinct(self.cfg().nodes@, node@);
                crate::primitives::lemma_first_id(self.cfg().nodes@, node@);
                crate::oracle::laws::law_remove_node_removes_only_that_node(self.cfg().nodes@, node@);
            }
        }
        match &mut self.config {
            None => Err(Error::NotInitialized),
            Some(cfg) => {
                if !admin.same_as(&cfg.admin) {
                    return Err(Error::NotAdmin);
                }
                match position_of(&cfg.nodes, &node) {
                    None => Ok(false),
                    Some(index) => {
                        cfg.nodes.remove(index);
                        Ok(true)
                    },
                }
            },
        }
    }

    /// Sets the minimum number of submissions required to finalize a price.
    ///
    /// Fails with `Error::NotInitialized` before initialization,
    /// `Error::NotAdmin` when `admin` is not the stored administrator, and
    /// `Error::InvalidThreshold` when `threshold` is zero or exceeds the
    /// current number of nodes; a failed call changes nothing.
    pub fn set_threshold(&mut self, admin: Address, threshold: u32) -> (r: Result<(), Error>)
        requires
            old(self).well_formed(),
        ensures
            final(self).well_formed(),
            old(self).keeps_setup(&*final(self)),
            !old(self).initialized() ==> r == Err::<(), Error>(Error::NotInitialized),
            old(self).initialized() && !old(self).is_admin(admin@) ==> r == Err::<(), Error>(
                Error::NotAdmin,
            ),
            old(self).is_admin(admin@) && (threshold == 0 || threshold > old(self).cfg().nodes@.len())
                ==> r == Err::<(), Error>(Error::InvalidThreshold),
            r is Err ==> *final(self) == *old(self),
            old(self).is_admin(admin@) && 1 <= threshold <= old(self).cfg().nodes@.len() ==> {
                &&& r is Ok
                &&& final(self).config == Some(Config { threshold, ..old(self).cfg() })
                &&& final(self).feeds == old(self).feeds
            },
    {
        match &mut self.config {
            None => Err(Error::NotInitialized),
            Some(cfg) => {
                if !admin.same_as(&cfg.admin) {
                    return Err(Error::NotAdmin);
                }
                if threshold == 0 || threshold as usize > cfg.nodes.len() {
                    return Err(Error::InvalidThreshold);
                }
                cfg.threshold = threshold;
                Ok(())
            },
        }
    }

    /// Sets the maximum number of finalized price records kept per
    /// commodity. Older records beyond the limit are pruned on each finalize.
    ///
    /// Fails with `Error::NotInitialized` before initialization,
    /// `Error::NotAdmin` when `admin` is not the stored administrator, and
    /// `Error::InvalidThreshold` when `retention` is zero; a failed call
    /// changes nothing.
    pub fn set_retention(&mut self, admin: Address, retention: u32) -> (r: Result<(), Error>)
        requires
            old(self).well_formed(),
        ensures
            final(self).well_formed(),
            old(self).keeps_setup(&*final(self)),
            !old(self).initialized() ==> r == Err::<(), Error>(Error::NotInitialized),
            old(self).initialized() && !old(self).is_admin(admin@) ==> r == Err::<(), Error>(
                Error::NotAdmin,
            ),
            old(self).is_admin(admin@) && retention == 0 ==> r == Err::<(), Error>(
                Error::InvalidThreshold,
            ),
            r is Err ==> *final(self) == *old(self),
            old(self).is_admin(admin@) && retention > 0 ==> {
                &&& r is Ok
                &&& final(self).config == Some(Config { retention, ..old(self).cfg() })
                &&& final(self).feeds == old(self).feeds
            },
    {
        match &mut self.config {
            None => Err(Error::NotInitialized),
            Some(cfg) => {
                if !admin.same_as(&cfg.admin) {
                    return Err(Error::NotAdmin);
                }
                if retention == 0 {
                    return Err(Error::InvalidThreshold);
                }
                cfg.retention = retention;
                Ok(())
            },
        }
    }

    /// Starts tracking a commodity.
    ///
    /// Fails with `Error::NotInitialized` before initialization,
    /// `Error::NotAdmin` when `admin` is not the stored administrator, and
    /// `Error::CommodityAlreadyExists` when the asset is already tracked; a
    /// failed call changes nothing.
    pub fn add_commodity(&mut self, admin: Address, asset: Asset) -> (r: Result<(), Error>)
        requires
            old(self).well_formed(),
        ensures
            final(self).well_formed(),
            old(self).keeps_setup(&*final(self)),
            !old(self).initialized() ==> r == Err::<(), Error>(Error::NotInitialized),
            old(self).initialized() && !old(self).is_admin(admin@) ==> r == Err::<(), Error>(
                Error::NotAdmin,
            ),
            old(self).is_admin(admin@) && contains_id(old(self).cfg().commodities@, asset@) ==> r
                == Err::<(), Error>(Error::CommodityAlreadyExists),
            r is Err ==> *final(self) == *old(self),
            old(self).is_admin(admin@) && !contains_id(old(self).cfg().commodities@, asset@) ==> {
                &&& r is Ok
                &&& final(self).cfg().commodities@ == old(self).cfg().commodities@.push(asset)
                &&& final(self).config == Some(
                    Config { commodities: final(self).cfg().commodities, ..old(self).cfg() },
                )
                &&& final(self).feeds == old(self).feeds
            },
    {
        proof {
            if self.initialized() {
                lemma_with_added_distinct(self.cfg().commodities@, asset);
            }
        }
        match &mut self.config {
            None => Err(Error::NotInitialized),
            Some(cfg) => {
                if !admin.same_as(&cfg.admin) {
                    return Err(Error::NotAdmin);
                }
                if contains(&cfg.commodities, &asset) {
                    return Err(Error::CommodityAlreadyExists);
                }
                cfg.commodities.push(asset);
                Ok(())
            },
        }
    }
}

} // verus!
