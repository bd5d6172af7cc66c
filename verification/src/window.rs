//! Resolution windows: every price timestamp is rounded down to the start of
//! the window of `resolution` seconds that holds it, per the SEP-40 design
//! rationale `floor(ts / resolution) * resolution`.

use vstd::prelude::*;

verus! {

/// The start of the window holding `ts`. A resolution of zero (a feed that is
/// not configured yet) leaves the timestamp unchanged.
pub open spec fn window_start(ts: u64, resolution: u32) -> int {
    if resolution == 0 {
        ts as int
    } else {
        (ts as int / resolution as int) * resolution as int
    }
}

/// Rounds `ts` down to the start of its resolution window.
pub fn round_to_window(ts: u64, resolution: u32) -> (r: u64)
    ensures
        r == window_start(ts, resolution),
{
    if resolution == 0 {
        return ts;
    }
    let res = resolution as u64;
    proof {
        lemma_window_bounds(ts, resolution);
    }
    (ts / res) * res
}

/// The window start is a multiple of the resolution at most `ts`, and `ts`
/// lies less than one resolution past it.
pub proof fn lemma_window_bounds(ts: u64, resolution: u32)
    requires
        resolution > 0,
    ensures
        0 <= window_start(ts, resolution) <= ts,
        ts < window_start(ts, resolution) + resolution,
        window_start(ts, resolution) % (resolution as int) == 0,
{
    let t = ts as int;
    let r = resolution as int;
    assert(0 <= (t / r) * r <= t && t < (t / r) * r + r) by (nonlinear_arith)
        requires
            t >= 0,
            r > 0,
    ;
    assert(((t / r) * r) % r == 0) by (nonlinear_arith)
        requires
            r > 0,
    {
        vstd::arithmetic::div_mod::lemma_mod_multiples_basic(t / r, r);
    }
}

/// Rounding is idempotent: the start of a window is its own window start.
pub proof fn lemma_window_idempotent(ts: u64, resolution: u32)
    ensures
        0 <= window_start(ts, resolution) <= ts,
        window_start(window_start(ts, resolution) as u64, resolution) == window_start(
            ts,
            resolution,
        ),
{
    if resolution > 0 {
        lemma_window_bounds(ts, resolution);
        let w = window_start(ts, resolution);
        let r = resolution as int;
        assert((w / r) * r == w) by (nonlinear_arith)
            requires
                r > 0,
                w % r == 0,
        {
            vstd::arithmetic::div_mod::lemma_fundamental_div_mod(w, r);
        }
    }
}

/// Two timestamps share a window exactly when each lies in the window that
/// starts at the other's window start.
pub proof fn lemma_same_window(t1: u64, t2: u64, resolution: u32)
    requires
        resolution > 0,
        window_start(t1, resolution) <= t2 < window_start(t1, resolution) + resolution,
    ensures
        window_start(t2, resolution) == window_start(t1, resolution),
{
    lemma_window_bounds(t1, resolution);
    lemma_window_bounds(t2, resolution);
    let r = resolution as int;
    let w1 = window_start(t1, resolution);
    let w2 = window_start(t2, resolution);
    let q1 = t1 as int / r;
    let q2 = t2 as int / r;
    assert(q1 == q2) by (nonlinear_arith)
        requires
            r > 0,
            w1 == q1 * r,
            w2 == q2 * r,
            w1 <= t2 < w1 + r,
            w2 <= t2 < w2 + r,
    {
        if q1 < q2 {
            assert(q1 * r + r <= q2 * r) by (nonlinear_arith)
                requires
                    q1 < q2,
                    r > 0,
            ;
        } else if q2 < q1 {
            assert(q2 * r + r <= q1 * r) by (nonlinear_arith)
                requires
                    q2 < q1,
                    r > 0,
            ;
        }
    }
}

} // verus!
