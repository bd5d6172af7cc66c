//! The oracle's state: the administrator configuration (instance storage)
//! and, per asset, the pending submissions and the finalized price history
//! (persistent storage).

use crate::median::all_positive;
use crate::oracle::errors::Error;
use crate::oracle::types::{prices_of, PriceData, Submission};
use crate::primitives::{distinct_ids, first_id, is_first_id, lemma_first_id, Address, Asset, AssetId, SameAs};
use crate::window::window_start;
use vstd::prelude::*;

verus! {

/// The number of finalized records kept per commodity unless the
/// administrator sets another limit.
pub const DEFAULT_RETENTION: u32 = 90;

/// The administrator configuration, present once the oracle is initialized.
pub struct Config {
    /// Address of the contract administrator.
    pub admin: Address,
    /// The authorized price nodes.
    pub nodes: Vec<Address>,
    /// Minimum number of pending submissions required to finalize a price.
    pub threshold: u32,
    /// Number of decimals used to represent prices.
    pub decimals: u32,
    /// Length of one price window in seconds.
    pub resolution: u32,
    /// The base asset of this feed, per SEP-40.
    pub base_asset: Asset,
    /// The tracked commodities.
    pub commodities: Vec<Asset>,
    /// Maximum number of finalized records kept per commodity.
    pub retention: u32,
}

/// The stored data of one asset: submissions pending finalization and the
/// finalized history, oldest first. An empty list stands for an absent
/// storage entry.
pub struct Feed {
    pub asset: Asset,
    pub pending: Vec<Submission>,
    pub history: Vec<PriceData>,
}

/// The oracle. `config` is `None` until `initialize` succeeds. `feeds` holds
/// the per-asset data; the first feed of an asset is the one that counts.
pub struct Contract {
    pub config: Option<Config>,
    pub feeds: Vec<Feed>,
}

/// The assets of a list of feeds, in order.
pub open spec fn feed_assets(feeds: Seq<Feed>) -> Seq<Asset> {
    feeds.map_values(|f: Feed| f.asset)
}

impl Contract {
    /// The oracle has been initialized.
    pub open spec fn initialized(&self) -> bool {
        self.config is Some
    }

    /// The configuration of an initialized oracle.
    pub open spec fn cfg(&self) -> Config {
        self.config->0
    }

    /// The configured resolution, or zero before initialization.
    pub open spec fn resolution_spec(&self) -> u32 {
        if self.initialized() {
            self.cfg().resolution
        } else {
            0
        }
    }

    /// Start of the resolution window that holds `ts`.
    pub open spec fn window_of(&self, ts: u64) -> int {
        window_start(ts, self.resolution_spec())
    }

    /// `caller` is the stored administrator of an initialized oracle.
    pub open spec fn is_admin(&self, caller: Seq<char>) -> bool {
        self.initialized() && self.cfg().admin@ == caller
    }

    /// Once initialized, `next` is still initialized with the same
    /// administrator, decimals, resolution and base asset: no operation
    /// rewrites what `initialize` set up.
    pub open spec fn keeps_setup(&self, next: &Contract) -> bool {
        self.initialized() ==> {
            &&& next.initialized()
            &&& next.cfg().admin == self.cfg().admin
            &&& next.cfg().decimals == self.cfg().decimals
            &&& next.cfg().resolution == self.cfg().resolution
            &&& next.cfg().base_asset == self.cfg().base_asset
        }
    }

    /// Position of the feed that holds the data of `id`, or -1.
    pub open spec fn feed_pos(&self, id: AssetId) -> int {
        first_id(feed_assets(self.feeds@), id)
    }

    /// The submissions pending for `id`.
    pub open spec fn pending_of(&self, id: AssetId) -> Seq<Submission> {
        let i = self.feed_pos(id);
        if i >= 0 {
            self.feeds@[i].pending@
        } else {
            Seq::empty()
        }
    }

    /// The finalized price history of `id`, oldest first.
    pub open spec fn history_of(&self, id: AssetId) -> Seq<PriceData> {
        let i = self.feed_pos(id);
        if i >= 0 {
            self.feeds@[i].history@
        } else {
            Seq::empty()
        }
    }

    /// The state invariant that every operation keeps: the node and
    /// commodity lists hold no duplicates, the resolution and the retention
    /// limit are positive, and every pending price is positive.
    pub open spec fn well_formed(&self) -> bool {
        &&& self.initialized() ==> {
            &&& distinct_ids(self.cfg().nodes@)
            &&& distinct_ids(self.cfg().commodities@)
            &&& self.cfg().resolution > 0
            &&& self.cfg().retention > 0
        }
        &&& forall|i: int|
            0 <= i < self.feeds@.len() ==> all_positive(prices_of(#[trigger] self.feeds@[i].pending@))
    }

    /// Only the data of `id` may differ between `self` and `other`: same
    /// configuration and the same data for every other asset.
    pub open spec fn same_except(&self, other: &Contract, id: AssetId) -> bool {
        &&& self.config == other.config
        &&& forall|a: AssetId|
            a != id ==> #[trigger] self.pending_of(a) == other.pending_of(a) && self.history_of(a)
                == other.history_of(a)
    }

    /// A freshly deployed, uninitialized oracle with no stored data.
    pub fn new() -> (r: Contract)
        ensures
            !r.initialized(),
            r.feeds@.len() == 0,
            r.well_formed(),
            forall|a: AssetId| #[trigger] r.pending_of(a).len() == 0 && r.history_of(a).len() == 0,
    {
        let r = Contract { config: None, feeds: Vec::new() };
        proof {
            assert forall|a: AssetId| #[trigger] r.pending_of(a).len() == 0 && r.history_of(a).len()
                == 0 by {
                lemma_first_id(feed_assets(r.feeds@), a);
            }
        }
        r
    }

    /// `Ok` once the oracle is initialized, else `Error::NotInitialized`.
    pub fn require_initialized(&self) -> (r: Result<(), Error>)
        ensures
            self.initialized() ==> r is Ok,
            !self.initialized() ==> r == Err::<(), Error>(Error::NotInitialized),
    {
        if self.config.is_some() {
            Ok(())
        } else {
            Err(Error::NotInitialized)
        }
    }

    /// Whether this state satisfies [`Contract::well_formed`]; a state read
    /// back from storage can be checked with it before use.
    pub fn is_well_formed(&self) -> (r: bool)
        ensures
            r == self.well_formed(),
    {
        if let Some(cfg) = &self.config {
            if !crate::primitives::all_distinct(&cfg.nodes) || !crate::primitives::all_distinct(
                &cfg.commodities,
            ) || cfg.resolution == 0 || cfg.retention == 0 {
                return false;
            }
        }
        let mut i: usize = 0;
        while i < self.feeds.len()
            invariant
                i <= self.feeds.len(),
                forall|k: int|
                    0 <= k < i ==> all_positive(prices_of(#[trigger] self.feeds@[k].pending@)),
            decreases self.feeds.len() - i,
        {
            let pending = &self.feeds[i].pending;
            let mut j: usize = 0;
            while j < pending.len()
                invariant
                    j <= pending.len(),
                    i < self.feeds.len(),
                    pending@ == self.feeds@[i as int].pending@,
                    forall|k: int| 0 <= k < j ==> #[trigger] pending@[k].price > 0,
                decreases pending.len() - j,
            {
                if pending[j].price <= 0 {
                    assert(prices_of(self.feeds@[i as int].pending@)[j as int] <= 0);
                    assert(!all_positive(prices_of(self.feeds@[i as int].pending@)));
                    return false;
                }
                j += 1;
            }
            assert(all_positive(prices_of(self.feeds@[i as int].pending@)));
            i += 1;
        }
        true
    }

    /// Finds the feed that holds the data of `asset`.
    pub fn find_feed(&self, asset: &Asset) -> (r: Option<usize>)
        ensures
            match r {
                Some(i) => i as int == self.feed_pos(asset@) && 0 <= i < self.feeds@.len(),
                None => self.feed_pos(asset@) == -1,
            },
    {
        let ghost keys = feed_assets(self.feeds@);
        let mut i: usize = 0;
        while i < self.feeds.len()
            invariant
                i <= self.feeds.len(),
                keys == feed_assets(self.feeds@),
                forall|j: int| 0 <= j < i ==> #[trigger] keys[j]@ != asset@,
            decreases self.feeds.len() - i,
        {
            if self.feeds[i].asset.same_as(asset) {
                proof {
                    lemma_first_id(keys, asset@);
                    assert(is_first_id(keys, asset@, i as int));
                }
                return Some(i);
            }
            i += 1;
        }
        proof {
            lemma_first_id(keys, asset@);
            if crate::primitives::contains_id(keys, asset@) {
                let k = choose|k: int| 0 <= k < keys.len() && #[trigger] keys[k]@ == asset@;
                assert(keys[k]@ != asset@);
            }
        }
        None
    }
}

} // verus!
