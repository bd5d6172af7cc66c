//! Price ingestion: node submissions and permissionless finalization.

use crate::median::{median, median_price, middle_sum_overflows};
use crate::oracle::errors::Error;
use crate::oracle::state::{feed_assets, Contract, Feed};
use crate::oracle::types::{prices_of, PriceData, Submission};
use crate::primitives::{
    contains, contains_id, lemma_first_id, lemma_first_id_push, Address, Asset, AssetId, SameAs,
};
use crate::window::round_to_window;
use vstd::prelude::*;

verus! {

/// `pending` holds a submission from `node` recorded at or after `window`.
pub open spec fn is_duplicate(pending: Seq<Submission>, node: Seq<char>, window: int) -> bool {
    exists|i: int|
        0 <= i < pending.len() && #[trigger] pending[i].node@ == node && pending[i].submitted_at
            >= window
}

/// The newest `limit` records of `history`, oldest first.
pub open spec fn retained(history: Seq<PriceData>, limit: u32) -> Seq<PriceData> {
    if history.len() > limit {
        history.subrange(history.len() - limit, history.len() as int)
    } else {
        history
    }
}

impl Contract {
    /// The record that a finalize of `id` at ledger time `now` produces.
    pub open spec fn finalized_record(&self, id: AssetId, now: u64) -> PriceData {
        PriceData {
            price: median(prices_of(self.pending_of(id))) as i128,
            timestamp: self.window_of(now) as u64,
        }
    }

    /// Rounds a timestamp down to the oracle's resolution window,
    /// `floor(ts / resolution) * resolution`. Before initialization the
    /// timestamp is returned unchanged.
    pub fn round_to_window(&self, ts: u64) -> (r: u64)
        ensures
            r == self.window_of(ts),
    {
        match &self.config {
            Some(cfg) => round_to_window(ts, cfg.resolution),
            None => ts,
        }
    }

    /// Records a price observation of a node for a tracked commodity at
    /// ledger time `now`.
    ///
    /// Fails, in this order of checks, with `Error::NotInitialized`,
    /// `Error::NotAuthorizedNode` when `node` is not an authorized node,
    /// `Error::UnknownCommodity` when `asset` is not tracked,
    /// `Error::InvalidPrice` when `price` is not positive, and
    /// `Error::DuplicateSubmission` when `node` already has a pending
    /// submission for `asset` recorded in the current resolution window. A
    /// failed call changes nothing.
    pub fn submit_price(
        &mut self,
        node: Address,
        asset: Asset,
        price: i128,
        source_ts: u64,
        now: u64,
    ) -> (r: Result<(), Error>)
        requires
            old(self).well_formed(),
        ensures
            final(self).well_formed(),
            old(self).keeps_setup(&*final(self)),
            !old(self).initialized() ==> r == Err::<(), Error>(Error::NotInitialized),
            old(self).initialized() && !contains_id(old(self).cfg().nodes@, node@) ==> r == Err::<
                (),
                Error,
            >(Error::NotAuthorizedNode),
            old(self).initialized() && contains_id(old(self).cfg().nodes@, node@) && !contains_id(
                old(self).cfg().commodities@,
                asset@,
            ) ==> r == Err::<(), Error>(Error::UnknownCommodity),
            old(self).initialized() && contains_id(old(self).cfg().nodes@, node@) && contains_id(
                old(self).cfg().commodities@,
                asset@,
            ) && price <= 0 ==> r == Err::<(), Error>(Error::InvalidPrice),
            old(self).initialized() && contains_id(old(self).cfg().nodes@, node@) && contains_id(
                old(self).cfg().commodities@,
                asset@,
            ) && price > 0 && is_duplicate(
                old(self).pending_of(asset@),
                node@,
                old(self).window_of(now),
            ) ==> r == Err::<(), Error>(Error::DuplicateSubmission),
            r is Err ==> *final(self) == *old(self),
            r is Ok <==> {
                &&& old(self).initialized()
                &&& contains_id(old(self).cfg().nodes@, node@)
                &&& contains_id(old(self).cfg().commodities@, asset@)
                &&& price > 0
                &&& !is_duplicate(old(self).pending_of(asset@), node@, old(self).window_of(now))
            },
            r is Ok ==> {
                &&& final(self).pending_of(asset@) == old(self).pending_of(asset@).push(
                    Submission { node, price, source_ts, submitted_at: now },
                )
                &&& final(self).history_of(asset@) == old(self).history_of(asset@)
                &&& final(self).same_except(&*old(self), asset@)
            },
            r is Ok ==> forall|j: int|
                0 <= j < final(self).pending_of(asset@).len() && #[trigger] final(self).pending_of(
                    asset@,
                )[j].node@ == node@ && final(self).pending_of(asset@)[j].submitted_at
                    >= old(self).window_of(now) ==> j == final(self).pending_of(asset@).len() - 1,
    {
        proof {
            crate::oracle::laws::law_one_submission_per_node_per_window(
                old(self).pending_of(asset@),
                node@,
                old(self).window_of(now),
                Submission { node, price, source_ts, submitted_at: now },
            );
        }
        let resolution = match &self.config {
            None => {
                return Err(Error::NotInitialized);
            },
            Some(cfg) => {
                if !contains(&cfg.nodes, &node) {
                    return Err(Error::NotAuthorizedNode);
                }
                if !contains(&cfg.commodities, &asset) {
                    return Err(Error::UnknownCommodity);
                }
                cfg.resolution
            },
        };
        if price <= 0 {
            return Err(Error::InvalidPrice);
        }
        let window_start = round_to_window(now, resolution);
        let ghost old_feeds = self.feeds@;
        let ghost keys = feed_assets(self.feeds@);
        proof {
            lemma_first_id(keys, asset@);
        }
        match self.find_feed(&asset) {
            Some(i) => {
                let mut k: usize = 0;
                #[verifier::loop_isolation(false)]
                while k < self.feeds[i].pending.len()
                    invariant
                        i < self.feeds.len(),
                        k <= self.feeds@[i as int].pending@.len(),
                        forall|j: int|
                            0 <= j < k ==> !(#[trigger] self.feeds@[i as int].pending@[j].node@
                                == node@ && self.feeds@[i as int].pending@[j].submitted_at
                                >= window_start),
                    decreases self.feeds@[i as int].pending@.len() - k,
                {
                    let sub = &self.feeds[i].pending[k];
                    if sub.submitted_at >= window_start && sub.node.same_as(&node) {
                        return Err(Error::DuplicateSubmission);
                    }
                    k += 1;
                }
                let sub = Submission { node, price, source_ts, submitted_at: now };
                let ghost pushed = self.feeds@[i as int].pending@.push(sub);
                self.feeds[i].pending.push(sub);
                proof {
                    assert(self.feeds@[i as int].pending@ == pushed);
                    assert(feed_assets(self.feeds@) =~= keys);
                    assert forall|j: int| 0 <= j < self.feeds@.len() implies crate::median::all_positive(
                        prices_of(#[trigger] self.feeds@[j].pending@),
                    ) by {
                        if j != i {
                            assert(self.feeds@[j] == old_feeds[j]);
                        } else {
                            assert(crate::median::all_positive(prices_of(old_feeds[j].pending@)));
                            assert(prices_of(pushed) =~= prices_of(old_feeds[j].pending@).push(price));
                        }
                    }
                    assert forall|a: AssetId| a != asset@ implies #[trigger] self.pending_of(a)
                        == old(self).pending_of(a) && self.history_of(a) == old(self).history_of(
                        a,
                    ) by {
                        let p = self.feed_pos(a);
                        if p >= 0 && p != i {
                            assert(self.feeds@[p] == old_feeds[p]);
                        }
                        if p == i {
                            lemma_first_id(keys, a);
                        }
                    }
                }
            },
            None => {
                let sub = Submission { node, price, source_ts, submitted_at: now };
                let mut pending: Vec<Submission> = Vec::new();
                pending.push(sub);
                let feed = Feed { asset, pending, history: Vec::new() };
                let ghost new_feed = feed;
                self.feeds.push(feed);
                proof {
                    assert(self.feeds@ == old_feeds.push(new_feed));
                    assert(feed_assets(self.feeds@) =~= keys.push(new_feed.asset));
                    assert forall|a: AssetId| #[trigger] self.feed_pos(a) == if a == asset@ {
                        old_feeds.len() as int
                    } else {
                        old(self).feed_pos(a)
                    } by {
                        lemma_first_id(keys, a);
                        lemma_first_id_push(keys, new_feed.asset, a);
                    }
                    assert(self.pending_of(asset@) =~= old(self).pending_of(asset@).push(sub));
                    assert(self.history_of(asset@) =~= old(self).history_of(asset@));
                    assert forall|j: int| 0 <= j < self.feeds@.len() implies crate::median::all_positive(
                        prices_of(#[trigger] self.feeds@[j].pending@),
                    ) by {
                        if j < old_feeds.len() {
                            assert(self.feeds@[j] == old_feeds[j]);
                        } else {
                            assert(prices_of(self.feeds@[j].pending@) =~= seq![price]);
                        }
                    }
                    assert forall|a: AssetId| a != asset@ implies #[trigger] self.pending_of(a)
                        == old(self).pending_of(a) && self.history_of(a) == old(self).history_of(
                        a,
                    ) by {
                        let p = self.feed_pos(a);
                        if p >= 0 {
                            assert(self.feeds@[p] == old_feeds[p]);
                        }
                    }
                }
            },
        }
        Ok(())
    }

    /// Aggregates the pending submissions of `asset` into one price record
    /// at ledger time `now`. Permissionless.
    ///
    /// The record's price is the integer median of the pending prices (the
    /// rounded-down average of the two middle prices when their number is
    /// even) and its timestamp is `now` rounded down to the resolution
    /// window. The record is appended to the history, the history is pruned
    /// to the newest `retention` records, and the pending submissions are
    /// cleared.
    ///
    /// Fails, in this order of checks, with `Error::NotInitialized`,
    /// `Error::NoPendingSubmissions` when nothing is pending,
    /// `Error::ThresholdNotMet` when fewer submissions are pending than the
    /// threshold or the threshold is zero (so it can never be met), and
    /// `Error::InvalidPrice` when the two middle prices sum past `i128::MAX`.
    /// A failed call changes nothing.
    pub fn finalize_price(&mut self, asset: &Asset, now: u64) -> (r: Result<PriceData, Error>)
        requires
            old(self).well_formed(),
        ensures
            final(self).well_formed(),
            old(self).keeps_setup(&*final(self)),
            !old(self).initialized() ==> r == Err::<PriceData, Error>(Error::NotInitialized),
            old(self).initialized() && old(self).pending_of(asset@).len() == 0 ==> r == Err::<
                PriceData,
                Error,
            >(Error::NoPendingSubmissions),
            old(self).initialized() && old(self).pending_of(asset@).len() > 0 && (old(self).cfg().threshold
                == 0 || old(self).pending_of(asset@).len() < old(self).cfg().threshold) ==> r == Err::<
                PriceData,
                Error,
            >(Error::ThresholdNotMet),
            old(self).initialized() && 1 <= old(self).cfg().threshold <= old(self).pending_of(
                asset@,
            ).len() && middle_sum_overflows(prices_of(old(self).pending_of(asset@))) ==> r == Err::<
                PriceData,
                Error,
            >(Error::InvalidPrice),
            r is Err ==> *final(self) == *old(self),
            r is Ok <==> {
                &&& old(self).initialized()
                &&& 1 <= old(self).cfg().threshold <= old(self).pending_of(asset@).len()
                &&& !middle_sum_overflows(prices_of(old(self).pending_of(asset@)))
            },
            r is Ok ==> {
                &&& r == Ok::<PriceData, Error>(old(self).finalized_record(asset@, now))
                &&& final(self).history_of(asset@) == retained(
                    old(self).history_of(asset@).push(old(self).finalized_record(asset@, now)),
                    old(self).cfg().retention,
                )
                &&& final(self).pending_of(asset@).len() == 0
                &&& final(self).same_except(&*old(self), asset@)
            },
            r is Ok ==> {
                &&& final(self).history_of(asset@).len() > 0
                &&& final(self).history_of(asset@).len() <= old(self).cfg().retention
                &&& final(self).history_of(asset@).last() == r->Ok_0
            },
    {
        let (threshold, retention, resolution) = match &self.config {
            None => {
                return Err(Error::NotInitialized);
            },
            Some(cfg) => (cfg.threshold, cfg.retention, cfg.resolution),
        };
        let ghost old_feeds = self.feeds@;
        let ghost keys = feed_assets(self.feeds@);
        proof {
            lemma_first_id(keys, asset@);
        }
        let i = match self.find_feed(asset) {
            None => {
                return Err(Error::NoPendingSubmissions);
            },
            Some(i) => i,
        };
        let count = self.feeds[i].pending.len();
        if count == 0 {
            return Err(Error::NoPendingSubmissions);
        }
        if threshold == 0 || count < threshold as usize {
            return Err(Error::ThresholdNotMet);
        }
        let mut prices: Vec<i128> = Vec::new();
        let mut k: usize = 0;
        while k < count
            invariant
                i < self.feeds.len(),
                count == self.feeds@[i as int].pending@.len(),
                k <= count,
                prices@ == prices_of(self.feeds@[i as int].pending@).take(k as int),
            decreases count - k,
        {
            prices.push(self.feeds[i].pending[k].price);
            k += 1;
            proof {
                assert(prices@ =~= prices_of(self.feeds@[i as int].pending@).take(k as int));
            }
        }
        proof {
            assert(prices@ =~= prices_of(self.feeds@[i as int].pending@));
            assert(crate::median::all_positive(prices_of(self.feeds@[i as int].pending@)));
        }
        let price = match median_price(&prices) {
            None => {
                return Err(Error::InvalidPrice);
            },
            Some(m) => m,
        };
        let record = PriceData { price, timestamp: round_to_window(now, resolution) };
        let ghost old_history = self.feeds@[i as int].history@;
        let mut history: Vec<PriceData> = Vec::new();
        std::mem::swap(&mut history, &mut self.feeds[i].history);
        history.push(record);
        if history.len() > retention as usize {
            let drop = history.len() - retention as usize;
            history = history.split_off(drop);
        }
        self.feeds[i].history = history;
        self.feeds[i].pending = Vec::new();
        proof {
            assert(self.feeds@[i as int].history@ =~= retained(old_history.push(record), retention));
            crate::oracle::laws::law_finalized_record_is_latest(old_history, record, retention);
            assert(feed_assets(self.feeds@) =~= keys);
            assert forall|j: int| 0 <= j < self.feeds@.len() implies crate::median::all_positive(
                prices_of(#[trigger] self.feeds@[j].pending@),
            ) by {
                if j != i {
                    assert(self.feeds@[j] == old_feeds[j]);
                } else {
                    assert(prices_of(self.feeds@[j].pending@) =~= Seq::<i128>::empty());
                }
            }
            assert forall|a: AssetId| a != asset@ implies #[trigger] self.pending_of(a)
                == old(self).pending_of(a) && self.history_of(a) == old(self).history_of(a) by {
                let p = self.feed_pos(a);
                if p >= 0 && p != i {
                    assert(self.feeds@[p] == old_feeds[p]);
                }
                if p == i {
                    lemma_first_id(keys, a);
                }
            }
        }
        Ok(record)
    }
}

} // verus!
