//! Properties of the oracle that span several operations, stated over the
//! spec functions its operations' contracts use.

use crate::oracle::ingest::{is_duplicate, retained};
use crate::oracle::state::Contract;
use crate::oracle::interface::newest;
use crate::oracle::types::{PriceData, Submission};
use crate::median::middle_sum_overflows;
use crate::oracle::types::prices_of;
use crate::primitives::{
    contains_id, distinct_ids, first_id, lemma_first_id, lemma_first_id_push, with_added, with_removed,
};
use crate::window::{lemma_same_window, lemma_window_idempotent, window_start};
use vstd::prelude::*;

verus! {

/// Adding a node that is not yet present and then removing it gives back the
/// node list it started from.
pub proof fn law_add_then_remove_node<T: View>(nodes: Seq<T>, node: T)
    requires
        !contains_id(nodes, node@),
    ensures
        with_removed(with_added(nodes, node), node@) == nodes,
{
    lemma_first_id_push(nodes, node, node@);
    assert(nodes.push(node).remove(nodes.len() as int) =~= nodes);
}

/// Adding the same node twice is the same as adding it once.
pub proof fn law_add_node_idempotent<T: View>(nodes: Seq<T>, node: T)
    ensures
        with_added(with_added(nodes, node), node) == with_added(nodes, node),
{
    if !contains_id(nodes, node@) {
        let t = nodes.push(node);
        assert(t[nodes.len() as int]@ == node@);
        assert(contains_id(t, node@));
    }
}

/// After a finalize the new record is the most recent one: the history is
/// non-empty, at most `retention` long, ends with the record, and is the
/// newest part of the old history followed by the record. So `lastprice`
/// returns the record and `prices(asset, 1)` returns exactly it.
pub proof fn law_finalized_record_is_latest(history: Seq<PriceData>, record: PriceData, retention: u32)
    requires
        retention > 0,
    ensures
        retained(history.push(record), retention).len() > 0,
        retained(history.push(record), retention).len() <= retention,
        retained(history.push(record), retention).last() == record,
        newest(retained(history.push(record), retention), 1) == seq![record],
        retained(history.push(record), retention).is_suffix_of(history.push(record)),
{
    let h = history.push(record);
    let r = retained(h, retention);
    assert(r.last() == record);
    assert(newest(r, 1) =~= seq![record]);
    assert(r =~= h.subrange(h.len() - r.len(), h.len() as int));
}

/// Retention keeps the newest records in order: the retained history is the
/// old history with its oldest records dropped, never reordered.
pub proof fn law_retained_is_newest(history: Seq<PriceData>, retention: u32)
    ensures
        retained(history, retention).len() == if history.len() > retention {
            retention as int
        } else {
            history.len() as int
        },
        forall|i: int|
            0 <= i < retained(history, retention).len() ==> #[trigger] retained(history, retention)[i]
                == history[history.len() - retained(history, retention).len() + i],
{
}

/// `prices` returns the newest records oldest first, as many as requested
/// or as exist, and its last entry is the most recent record.
pub proof fn law_newest_ends_with_latest(history: Seq<PriceData>, records: u32)
    requires
        records > 0,
        history.len() > 0,
    ensures
        newest(history, records).len() == if records < history.len() {
            records as int
        } else {
            history.len() as int
        },
        newest(history, records).last() == history.last(),
        forall|i: int|
            0 <= i < newest(history, records).len() ==> #[trigger] newest(history, records)[i]
                == history[history.len() - newest(history, records).len() + i],
{
}

/// Once the pending submissions are cleared by a finalize, no submission
/// counts as a duplicate, so every node may submit again in the same window.
pub proof fn law_cleared_pending_accepts_resubmission(node: Seq<char>, window: int)
    ensures
        !is_duplicate(Seq::<Submission>::empty(), node, window),
{
}

/// Every timestamp inside a window resolves to that window, so `price`
/// answers the same for all of them; and a record's own timestamp, being a
/// window start, resolves to itself.
pub proof fn law_window_lookup(t1: u64, t2: u64, resolution: u32)
    requires
        resolution > 0,
        window_start(t1, resolution) <= t2 < window_start(t1, resolution) + resolution,
    ensures
        window_start(t2, resolution) == window_start(t1, resolution),
        window_start(window_start(t1, resolution) as u64, resolution) == window_start(
            t1,
            resolution,
        ),
{
    lemma_same_window(t1, t2, resolution);
    lemma_window_idempotent(t1, resolution);
}

/// What `initialize` sets up persists: along any run of operations, each of
/// which keeps the setup (every operation's contract says so), the oracle
/// stays initialized with the same administrator, decimals, resolution and
/// base asset, and its resolution stays at least 1.
pub proof fn law_setup_persists(states: Seq<Contract>)
    requires
        states.len() > 0,
        states[0].initialized(),
        forall|i: int| 0 <= i < states.len() ==> #[trigger] states[i].well_formed(),
        forall|i: int| 0 <= i < states.len() - 1 ==> #[trigger] states[i].keeps_setup(&states[i + 1]),
    ensures
        forall|i: int|
            0 <= i < states.len() ==> {
                &&& #[trigger] states[i].initialized()
                &&& states[i].cfg().admin == states[0].cfg().admin
                &&& states[i].cfg().decimals == states[0].cfg().decimals
                &&& states[i].cfg().resolution == states[0].cfg().resolution
                &&& states[i].cfg().resolution >= 1
                &&& states[i].cfg().base_asset == states[0].cfg().base_asset
            },
    decreases states.len(),
{
    if states.len() > 1 {
        let prefix = states.drop_last();
        assert forall|i: int| 0 <= i < prefix.len() - 1 implies #[trigger] prefix[i].keeps_setup(
            &prefix[i + 1],
        ) by {
            assert(prefix[i] == states[i] && prefix[i + 1] == states[i + 1]);
            assert(states[i].keeps_setup(&states[i + 1]));
        }
        assert forall|i: int| 0 <= i < prefix.len() implies #[trigger] prefix[i].well_formed() by {
            assert(prefix[i] == states[i]);
        }
        law_setup_persists(prefix);
        let n = states.len() - 1;
        assert(prefix[n - 1] == states[n - 1]);
        let m = n - 1;
        assert(states[m].keeps_setup(&states[m + 1]));
        assert(prefix[0] == states[0]);
        assert(prefix[m] == states[m]);
        assert(prefix[m].initialized());
        assert(states[n].well_formed());
        assert forall|i: int| 0 <= i < states.len() implies {
            &&& #[trigger] states[i].initialized()
            &&& states[i].cfg().admin == states[0].cfg().admin
            &&& states[i].cfg().decimals == states[0].cfg().decimals
            &&& states[i].cfg().resolution == states[0].cfg().resolution
            &&& states[i].cfg().resolution >= 1
            &&& states[i].cfg().base_asset == states[0].cfg().base_asset
        } by {
            if i < n {
                assert(prefix[i] == states[i]);
                assert(prefix[i].initialized());
            }
        }
    } else {
        assert(states[0].well_formed());
    }
}

/// Removing a node removes exactly that node: when it was present the list
/// gets one shorter, otherwise it is unchanged, and every other node stays
/// authorized while the removed one no longer is.
pub proof fn law_remove_node_removes_only_that_node<T: View>(nodes: Seq<T>, v: T::V)
    requires
        distinct_ids(nodes),
    ensures
        contains_id(nodes, v) ==> with_removed(nodes, v).len() == nodes.len() - 1,
        !contains_id(nodes, v) ==> with_removed(nodes, v) == nodes,
        forall|m: T::V|
            #[trigger] contains_id(with_removed(nodes, v), m) <==> (contains_id(nodes, m) && m != v),
{
    lemma_first_id(nodes, v);
    let k = first_id(nodes, v);
    if k >= 0 {
        let t = nodes.remove(k);
        assert forall|m: T::V| #[trigger] contains_id(t, m) <==> (contains_id(nodes, m) && m != v) by {
            if contains_id(t, m) {
                let i = choose|i: int| 0 <= i < t.len() && #[trigger] t[i]@ == m;
                let i2 = if i < k { i } else { i + 1 };
                assert(t[i] == nodes[i2]);
                assert(nodes[i2]@ != nodes[k]@);
            }
            if contains_id(nodes, m) && m != v {
                let i = choose|i: int| 0 <= i < nodes.len() && #[trigger] nodes[i]@ == m;
                assert(i != k);
                let i2 = if i < k { i } else { i - 1 };
                assert(t[i2] == nodes[i]);
            }
        }
    }
}

/// A node may have at most one pending submission per window for an asset:
/// a submission of `node` recorded at or after `window`, at any position of
/// the pending list, makes a further one a duplicate; and when a submission is
/// accepted, it is the only one of its node at or after that window.
pub proof fn law_one_submission_per_node_per_window(
    pending: Seq<Submission>,
    node: Seq<char>,
    window: int,
    sub: Submission,
)
    ensures
        forall|i: int|
            0 <= i < pending.len() && #[trigger] pending[i].node@ == node && pending[i].submitted_at
                >= window ==> is_duplicate(pending, node, window),
        !is_duplicate(pending, sub.node@, window) ==> forall|j: int|
            0 <= j < pending.len() + 1 && #[trigger] pending.push(sub)[j].node@ == sub.node@
                && pending.push(sub)[j].submitted_at >= window ==> j == pending.len(),
{
    assert forall|j: int|
        0 <= j < pending.len() + 1 && #[trigger] pending.push(sub)[j].node@ == sub.node@
            && pending.push(sub)[j].submitted_at >= window && !is_duplicate(
            pending,
            sub.node@,
            window,
        ) implies j == pending.len() by {
        if j < pending.len() {
            assert(pending.push(sub)[j] == pending[j]);
        }
    }
}

/// The finalized price is the middle of the pending prices in ascending
/// order: the middle price for an odd count, and for an even count the
/// rounded-down average of the two middle prices, refused exactly when their
/// sum exceeds `i128::MAX`. `t` is any ascending arrangement of the pending
/// prices.
pub proof fn law_finalized_price_is_middle(c: Contract, id: crate::primitives::AssetId, now: u64, t: Seq<i128>)
    requires
        c.pending_of(id).len() > 0,
        t.to_multiset() == prices_of(c.pending_of(id)).to_multiset(),
        forall|i: int, j: int| 0 <= i < j < t.len() ==> t[i] <= t[j],
    ensures
        t.len() == c.pending_of(id).len(),
        t.len() % 2 == 1 ==> c.finalized_record(id, now).price == t[(t.len() / 2) as int],
        t.len() % 2 == 0 && t[(t.len() / 2) as int - 1] + t[(t.len() / 2) as int] <= i128::MAX
            ==> c.finalized_record(id, now).price == (t[(t.len() / 2) as int - 1] + t[(t.len()
            / 2) as int]) / 2,
        t.len() % 2 == 0 ==> (middle_sum_overflows(prices_of(c.pending_of(id))) <==> t[(t.len() / 2) as int
            - 1] + t[(t.len() / 2) as int] > i128::MAX),
        c.finalized_record(id, now).timestamp == c.window_of(now),
{
    let s = prices_of(c.pending_of(id));
    crate::median::law_median_is_middle_of_ascending_order(s, t);
    let n = t.len() as int;
    if n % 2 == 0 {
        let a = t[n / 2 - 1];
        let b = t[n / 2];
        assert(a <= b);
        assert(a <= (a + b) / 2 <= b);
    }
    if c.resolution_spec() > 0 {
        crate::window::lemma_window_bounds(now, c.resolution_spec());
    }
}

} // verus!
