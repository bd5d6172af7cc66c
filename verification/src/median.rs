//! The integer median that aggregates the prices submitted in one window.
//!
//! With an odd number of prices the median is the middle one in sorted order;
//! with an even number it is the average of the two middle ones, computed
//! with checked arithmetic (the sum may not exceed `i128::MAX`) and rounded
//! down.

use vstd::prelude::*;
use vstd::relations::{sorted_by, total_ordering};

verus! {

broadcast use vstd::seq_lib::group_to_multiset_ensures, vstd::multiset::group_multiset_axioms;

/// The order of prices.
pub open spec fn price_order() -> spec_fn(i128, i128) -> bool {
    |a: i128, b: i128| a <= b
}

/// The prices of `s` in ascending order.
pub open spec fn sorted_prices(s: Seq<i128>) -> Seq<i128> {
    s.sort_by(price_order())
}

/// For an even, non-empty list: the sum of the two middle prices does not fit
/// in an `i128`, so their average cannot be formed.
pub open spec fn middle_sum_overflows(s: Seq<i128>) -> bool {
    let t = sorted_prices(s);
    let n = t.len() as int;
    &&& n > 0
    &&& n % 2 == 0
    &&& t[n / 2 - 1] + t[n / 2] > i128::MAX
}

/// The median of a non-empty list of positive prices: the middle price in
/// sorted order, or the rounded-down average of the two middle prices.
pub open spec fn median(s: Seq<i128>) -> int {
    let t = sorted_prices(s);
    let n = t.len() as int;
    if n % 2 == 1 {
        t[n / 2] as int
    } else {
        (t[n / 2 - 1] + t[n / 2]) / 2
    }
}

/// Every price of `s` is positive.
pub open spec fn all_positive(s: Seq<i128>) -> bool {
    forall|i: int| 0 <= i < s.len() ==> #[trigger] s[i] > 0
}

pub proof fn lemma_price_order_total()
    ensures
        total_ordering(price_order()),
{
}

/// What sorting gives: an ascending list holding the same prices.
pub proof fn lemma_sorted_prices(s: Seq<i128>)
    ensures
        sorted_by(sorted_prices(s), price_order()),
        sorted_prices(s).to_multiset() == s.to_multiset(),
        sorted_prices(s).len() == s.len(),
{
    lemma_price_order_total();
    s.lemma_sort_by_ensures(price_order());
    s.to_multiset_ensures();
    sorted_prices(s).to_multiset_ensures();
}

/// Two ascending lists holding the same prices are the same list.
pub proof fn lemma_sorted_unique(a: Seq<i128>, b: Seq<i128>)
    requires
        sorted_by(a, price_order()),
        sorted_by(b, price_order()),
        a.to_multiset() == b.to_multiset(),
    ensures
        a == b,
    decreases a.len(),
{
    a.to_multiset_ensures();
    b.to_multiset_ensures();
    if a.len() == 0 {
        assert(b.len() == 0);
        assert(a =~= b);
    } else {
        assert(b.len() == a.len());
        assert(b.to_multiset().count(a[0]) > 0);
        assert(b.contains(a[0]));
        let j = choose|j: int| 0 <= j < b.len() && b[j] == a[0];
        assert(price_order()(b[0], b[j]) || j == 0);
        assert(a.to_multiset().count(b[0]) > 0);
        assert(a.contains(b[0]));
        let k = choose|k: int| 0 <= k < a.len() && a[k] == b[0];
        assert(price_order()(a[0], a[k]) || k == 0);
        assert(a[0] == b[0]);
        let a1 = a.remove(0);
        let b1 = b.remove(0);
        assert(a1.to_multiset() == a.to_multiset().remove(a[0]));
        assert(b1.to_multiset() == b.to_multiset().remove(b[0]));
        assert forall|i: int, j: int| 0 <= i < j < a1.len() implies #[trigger] price_order()(
            a1[i],
            a1[j],
        ) by {
            assert(price_order()(a[i + 1], a[j + 1]));
        }
        assert forall|i: int, j: int| 0 <= i < j < b1.len() implies #[trigger] price_order()(
            b1[i],
            b1[j],
        ) by {
            assert(price_order()(b[i + 1], b[j + 1]));
        }
        lemma_sorted_unique(a1, b1);
        assert(a =~= b) by {
            assert forall|i: int| 0 <= i < a.len() implies a[i] == b[i] by {
                if i > 0 {
                    assert(a[i] == a1[i - 1]);
                    assert(b[i] == b1[i - 1]);
                }
            }
        }
    }
}

proof fn lemma_insert_multiset(s: Seq<i128>, j: int, x: i128)
    requires
        0 <= j <= s.len(),
    ensures
        s.insert(j, x).to_multiset() == s.to_multiset().insert(x),
{
    let t = s.insert(j, x);
    assert(t.remove(j) =~= s);
    t.to_multiset_ensures();
    assert(t[j] == x);
    assert(s.to_multiset() == t.to_multiset().remove(x));
    assert(t.contains(x));
    assert(t.to_multiset().count(x) > 0);
    assert(t.to_multiset() =~= s.to_multiset().insert(x));
}

/// The prices of `prices` in ascending order.
pub fn sort_prices(prices: &Vec<i128>) -> (r: Vec<i128>)
    ensures
        r@ == sorted_prices(prices@),
{
    let mut out: Vec<i128> = Vec::new();
    for i in 0..prices.len()
        invariant
            sorted_by(out@, price_order()),
            out@.to_multiset() == prices@.take(i as int).to_multiset(),
    {
        let x = prices[i];
        let mut j: usize = 0;
        while j < out.len() && out[j] <= x
            invariant
                j <= out.len(),
                forall|k: int| 0 <= k < j ==> #[trigger] out@[k] <= x,
            decreases out.len() - j,
        {
            j += 1;
        }
        let ghost before = out@;
        proof {
            lemma_insert_multiset(before, j as int, x);
            assert(prices@.take(i + 1) =~= prices@.take(i as int).push(x));
        }
        out.insert(j, x);
        proof {
            assert forall|a: int, b: int| 0 <= a < b < out@.len() implies #[trigger] price_order()(
                out@[a],
                out@[b],
            ) by {
                if b < j {
                    assert(price_order()(before[a], before[b]));
                } else if b == j {
                    assert(before[a] <= x);
                } else if a < j {
                    assert(before[a] <= x);
                    assert(before[j as int] > x);
                    assert(price_order()(before[j as int], before[b - 1]) || j == b - 1);
                } else if a == j {
                    assert(before[j as int] > x);
                    assert(price_order()(before[j as int], before[b - 1]) || j == b - 1);
                } else {
                    assert(price_order()(before[a - 1], before[b - 1]));
                }
            }
        }
    }
    proof {
        assert(prices@.take(prices.len() as int) =~= prices@);
        lemma_sorted_prices(prices@);
        lemma_sorted_unique(out@, sorted_prices(prices@));
    }
    out
}

/// The median of a non-empty list of positive prices, or `None` when the list
/// has an even length and the two middle prices sum past `i128::MAX`.
pub fn median_price(prices: &Vec<i128>) -> (r: Option<i128>)
    requires
        prices.len() > 0,
        all_positive(prices@),
    ensures
        match r {
            Some(m) => !middle_sum_overflows(prices@) && m == median(prices@),
            None => middle_sum_overflows(prices@),
        },
{
    let sorted = sort_prices(prices);
    proof {
        lemma_sorted_prices(prices@);
        prices@.to_multiset_ensures();
        assert forall|i: int| 0 <= i < sorted@.len() implies #[trigger] sorted@[i] > 0 by {
            assert(sorted@.to_multiset().count(sorted@[i]) > 0);
            assert(prices@.contains(sorted@[i]));
        }
    }
    let n = sorted.len();
    if n % 2 == 1 {
        Some(sorted[n / 2])
    } else {
        let lo = sorted[n / 2 - 1];
        let hi = sorted[n / 2];
        match lo.checked_add(hi) {
            Some(sum) => Some(sum / 2),
            None => None,
        }
    }
}

/// The median does not depend on the order in which prices arrive: two lists
/// holding the same prices have the same median and the same overflow status.
pub proof fn lemma_median_order_independent(s1: Seq<i128>, s2: Seq<i128>)
    requires
        s1.to_multiset() == s2.to_multiset(),
    ensures
        sorted_prices(s1) == sorted_prices(s2),
        median(s1) == median(s2),
        middle_sum_overflows(s1) == middle_sum_overflows(s2),
{
    lemma_sorted_prices(s1);
    lemma_sorted_prices(s2);
    lemma_sorted_unique(sorted_prices(s1), sorted_prices(s2));
}

/// The median lies between the lowest and the highest price, and with an odd
/// number of prices it is one of them.
pub proof fn lemma_median_bounds(s: Seq<i128>)
    requires
        s.len() > 0,
    ensures
        s.contains(sorted_prices(s)[0]),
        s.contains(sorted_prices(s)[s.len() - 1]),
        forall|i: int|
            0 <= i < s.len() ==> sorted_prices(s)[0] <= #[trigger] s[i] <= sorted_prices(
                s,
            )[s.len() - 1],
        sorted_prices(s)[0] <= median(s) <= sorted_prices(s)[s.len() - 1],
        s.len() % 2 == 1 ==> s.contains(median(s) as i128),
{
    lemma_sorted_prices(s);
    s.to_multiset_ensures();
    let t = sorted_prices(s);
    let n = t.len() as int;
    t.to_multiset_ensures();
    assert(price_order()(t[0], t[n / 2]) || n / 2 == 0);
    assert(price_order()(t[n / 2], t[n - 1]) || n / 2 == n - 1);
    if n % 2 == 0 {
        assert(price_order()(t[0], t[n / 2 - 1]) || n / 2 - 1 == 0);
        assert(price_order()(t[n / 2 - 1], t[n / 2]));
    }
    assert(t.contains(t[0]));
    assert(t.to_multiset().count(t[0]) > 0);
    assert(s.contains(t[0]));
    assert(t.contains(t[n - 1]));
    assert(t.to_multiset().count(t[n - 1]) > 0);
    assert(s.contains(t[n - 1]));
    assert forall|i: int| 0 <= i < s.len() implies t[0] <= #[trigger] s[i] <= t[n - 1] by {
        assert(s.contains(s[i]));
        assert(s.to_multiset().count(s[i]) > 0);
        assert(t.contains(s[i]));
        let k = choose|k: int| 0 <= k < t.len() && t[k] == s[i];
        assert(price_order()(t[0], t[k]) || k == 0);
        assert(price_order()(t[k], t[n - 1]) || k == n - 1);
    }
    if n % 2 == 1 {
        assert(t.contains(t[n / 2]));
        assert(t.to_multiset().count(t[n / 2]) > 0);
        assert(s.contains(t[n / 2]));
    }
}

/// The median is the middle of the prices in ascending order: for any
/// ascending arrangement `t` of the prices `s`, an odd count gives the middle
/// price `t[n/2]`, and an even count gives the rounded-down average of the
/// two middle prices `(t[n/2 - 1] + t[n/2]) / 2`, which overflows exactly when
/// that sum exceeds `i128::MAX`. Consequently at most half of the prices lie
/// strictly below the median and at most half strictly above it.
pub proof fn law_median_is_middle_of_ascending_order(s: Seq<i128>, t: Seq<i128>)
    requires
        s.len() > 0,
        t.to_multiset() == s.to_multiset(),
        forall|i: int, j: int| 0 <= i < j < t.len() ==> t[i] <= t[j],
    ensures
        t.len() == s.len(),
        s.len() % 2 == 1 ==> median(s) == t[(s.len() / 2) as int] as int && !middle_sum_overflows(s),
        s.len() % 2 == 0 ==> median(s) == (t[(s.len() / 2) as int - 1] + t[(s.len() / 2) as int]) / 2,
        s.len() % 2 == 0 ==> (middle_sum_overflows(s) <==> t[(s.len() / 2) as int - 1] + t[(s.len() / 2) as int]
            > i128::MAX),
        forall|i: int| 0 <= i < t.len() && t[i] < median(s) ==> i < s.len() / 2,
        forall|i: int| 0 <= i < t.len() && t[i] > median(s) ==> i >= s.len() - s.len() / 2,
{
    s.to_multiset_ensures();
    t.to_multiset_ensures();
    assert forall|i: int, j: int| 0 <= i < j < t.len() implies #[trigger] price_order()(
        t[i],
        t[j],
    ) by {}
    lemma_sorted_prices(s);
    lemma_sorted_unique(t, sorted_prices(s));
    let n = s.len() as int;
    assert(t.len() == n);
    if n % 2 == 0 {
        assert(t[n / 2 - 1] <= t[n / 2]);
        let m = (t[n / 2 - 1] + t[n / 2]) / 2;
        assert(t[n / 2 - 1] <= m <= t[n / 2]);
        assert forall|i: int| 0 <= i < t.len() && t[i] < median(s) implies i < n / 2 by {
            if i >= n / 2 {
                assert(t[n / 2] <= t[i] || i == n / 2);
            }
        }
        assert forall|i: int| 0 <= i < t.len() && t[i] > median(s) implies i >= n - n / 2 by {
            if i < n / 2 {
                assert(t[i] <= t[n / 2 - 1] || i == n / 2 - 1);
            }
        }
    } else {
        assert forall|i: int| 0 <= i < t.len() && t[i] < median(s) implies i < n / 2 by {
            if i >= n / 2 {
                assert(t[n / 2] <= t[i] || i == n / 2);
            }
        }
        assert forall|i: int| 0 <= i < t.len() && t[i] > median(s) implies i >= n - n / 2 by {
            if i <= n / 2 {
                assert(t[i] <= t[n / 2] || i == n / 2);
            }
        }
    }
}

} // verus!
