//! The SEP-40 price feed reads. Per SEP-40 they never fail for unknown
//! assets or out-of-range timestamps; they return `None` instead.

use crate::oracle::state::Contract;
use crate::oracle::types::PriceData;
use crate::primitives::{copy_assets, ids, Asset, AssetId, Symbol};
use vstd::prelude::*;

verus! {

/// `j` is the first position of `history` whose record lies in the window
/// starting at `window`.
pub open spec fn is_first_in_window(history: Seq<PriceData>, window: int, j: int) -> bool {
    &&& 0 <= j < history.len()
    &&& history[j].timestamp == window
    &&& forall|k: int| 0 <= k < j ==> #[trigger] history[k].timestamp != window
}

/// The newest `records` entries of `history` (all of them when it is
/// shorter), oldest first.
pub open spec fn newest(history: Seq<PriceData>, records: u32) -> Seq<PriceData> {
    if records < history.len() {
        history.subrange(history.len() - records, history.len() as int)
    } else {
        history
    }
}

impl Contract {
    /// The base asset the prices are reported in. Before initialization the
    /// stored value is absent and an asset named by the empty symbol is
    /// returned.
    pub fn base(&self) -> (r: Asset)
        ensures
            self.initialized() ==> r@ == self.cfg().base_asset@,
            !self.initialized() ==> r@ == AssetId::Other(Seq::<char>::empty()),
    {
        match &self.config {
            Some(cfg) => cfg.base_asset.clone(),
            None => Asset::Other(Symbol { name: String::new() }),
        }
    }

    /// All tracked commodities, in the order they were added. Empty before
    /// initialization.
    pub fn assets(&self) -> (r: Vec<Asset>)
        ensures
            self.initialized() ==> ids(r@) == ids(self.cfg().commodities@),
            !self.initialized() ==> r@.len() == 0,
    {
        match &self.config {
            Some(cfg) => copy_assets(&cfg.commodities),
            None => Vec::new(),
        }
    }

    /// The number of decimals used to represent prices; zero before
    /// initialization.
    pub fn decimals(&self) -> (r: u32)
        ensures
            r == if self.initialized() {
                self.cfg().decimals
            } else {
                0
            },
    {
        match &self.config {
            Some(cfg) => cfg.decimals,
            None => 0,
        }
    }

    /// The resolution window in seconds; zero before initialization.
    pub fn resolution(&self) -> (r: u32)
        ensures
            r == self.resolution_spec(),
    {
        match &self.config {
            Some(cfg) => cfg.resolution,
            None => 0,
        }
    }

    /// The price of `asset` for the window holding `timestamp`: the first
    /// record of the history whose timestamp is `timestamp` rounded down to
    /// the resolution window, or `None` when there is none (unknown asset or
    /// a window without finalized data).
    pub fn price(&self, asset: &Asset, timestamp: u64) -> (r: Option<PriceData>)
        ensures
            match r {
                Some(p) => exists|j: int|
                    is_first_in_window(self.history_of(asset@), self.window_of(timestamp), j)
                        && #[trigger] self.history_of(asset@)[j] == p,
                None => forall|j: int|
                    0 <= j < self.history_of(asset@).len() ==> #[trigger] self.history_of(
                        asset@,
                    )[j].timestamp != self.window_of(timestamp),
            },
    {
        let target = self.round_to_window(timestamp);
        match self.find_feed(asset) {
            None => None,
            Some(i) => {
                let history = &self.feeds[i].history;
                let mut j: usize = 0;
                while j < history.len()
                    invariant
                        j <= history@.len(),
                        history@ == self.history_of(asset@),
                        target == self.window_of(timestamp),
                        forall|k: int| 0 <= k < j ==> #[trigger] history@[k].timestamp != target,
                    decreases history.len() - j,
                {
                    if history[j].timestamp == target {
                        proof {
                            assert(is_first_in_window(history@, target as int, j as int));
                        }
                        return Some(history[j]);
                    }
                    j += 1;
                }
                None
            },
        }
    }

    /// The newest `records` price points of `asset`, oldest first, or all
    /// of them when the history is shorter. `None` when `records` is zero or
    /// the asset has no history (unknown asset or nothing finalized yet).
    pub fn prices(&self, asset: &Asset, records: u32) -> (r: Option<Vec<PriceData>>)
        ensures
            records == 0 || self.history_of(asset@).len() == 0 ==> r is None,
            records > 0 && self.history_of(asset@).len() > 0 ==> r is Some && r->0@ == newest(
                self.history_of(asset@),
                records,
            ),
    {
        if records == 0 {
            return None;
        }
        match self.find_feed(asset) {
            None => None,
            Some(i) => {
                let history = &self.feeds[i].history;
                if history.len() == 0 {
                    return None;
                }
                let take = if (records as usize) < history.len() {
                    records as usize
                } else {
                    history.len()
                };
                let start = history.len() - take;
                let mut out: Vec<PriceData> = Vec::new();
                let mut j: usize = start;
                while j < history.len()
                    invariant
                        start <= j <= history@.len(),
                        out@ == history@.subrange(start as int, j as int),
                    decreases history.len() - j,
                {
                    out.push(history[j]);
                    j += 1;
                    proof {
                        assert(out@ =~= history@.subrange(start as int, j as int));
                    }
                }
                proof {
                    assert(out@ =~= newest(history@, records));
                }
                Some(out)
            },
        }
    }

    /// The most recent price of `asset`, or `None` when the asset is unknown
    /// or has no finalized history.
    pub fn lastprice(&self, asset: &Asset) -> (r: Option<PriceData>)
        ensures
            self.history_of(asset@).len() == 0 ==> r is None,
            self.history_of(asset@).len() > 0 ==> r == Some(self.history_of(asset@).last()),
    {
        match self.find_feed(asset) {
            None => None,
            Some(i) => {
                let history = &self.feeds[i].history;
                if history.len() == 0 {
                    None
                } else {
                    Some(history[history.len() - 1])
                }
            },
        }
    }
}

} // verus!
