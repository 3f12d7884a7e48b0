//! The bounded escape-time iteration `z <- z*z + c`.

use vstd::prelude::*;

use crate::complex::{
    c_add, c_mul, c_norm_sqr, c_zero, complex_add, complex_mul, complex_norm_sqr, Complex,
};
use crate::float_ops::{f64_gt, fgt, ESCAPE_THRESHOLD_BITS};

verus! {

/// The orbit of `c`: the value of `z` after `n` steps of `z <- z*z + c`,
/// starting from `z = 0`.
pub open spec fn orbit(c: Complex, n: nat) -> Complex
    decreases n,
{
    if n == 0 {
        c_zero()
    } else {
        c_add(c_mul(orbit(c, (n - 1) as nat), orbit(c, (n - 1) as nat)), c)
    }
}

/// Whether `z` lies outside the escape radius: `|z|^2 > 4.0` in double
/// arithmetic.
pub open spec fn escaped(z: Complex) -> bool {
    f64_gt(c_norm_sqr(z), ESCAPE_THRESHOLD_BITS)
}

/// The first step in `1..=limit` after which the orbit of `c` has escaped,
/// or `None` where it stays within the radius for the whole budget.
pub open spec fn min_escape(c: Complex, limit: nat) -> Option<nat>
    decreases limit,
{
    if limit == 0 {
        None
    } else {
        match min_escape(c, (limit - 1) as nat) {
            Some(k) => Some(k),
            None => if escaped(orbit(c, limit)) {
                Some(limit)
            } else {
                None
            },
        }
    }
}

/// A `None` report means the whole budget ran without an escape: no step
/// in `1..=limit` leaves the radius.
pub proof fn lemma_min_escape_none(c: Complex, limit: nat)
    requires
        min_escape(c, limit) is None,
    ensures
        forall|j: nat| 1 <= j <= limit ==> !escaped(orbit(c, j)),
    decreases limit,
{
    if limit > 0 {
        lemma_min_escape_none(c, (limit - 1) as nat);
    }
}

/// An escape report bounds its count: a count `k` comes with `1 <= k` and
/// with an escaped orbit at step `k`, the first such step.
pub proof fn lemma_min_escape_bounds(c: Complex, limit: nat)
    requires
        min_escape(c, limit) is Some,
    ensures
        1 <= min_escape(c, limit)->Some_0 <= limit,
        escaped(orbit(c, min_escape(c, limit)->Some_0)),
        forall|j: nat| 1 <= j < min_escape(c, limit)->Some_0 ==> !escaped(orbit(c, j)),
    decreases limit,
{
    if limit > 0 {
        if min_escape(c, (limit - 1) as nat) is Some {
            lemma_min_escape_bounds(c, (limit - 1) as nat);
        } else {
            lemma_min_escape_none(c, (limit - 1) as nat);
        }
    }
}

/// Truncating the budget down to the reported count changes nothing: a
/// count `k` under budget `limit` is also the count under budget `k`.
pub proof fn lemma_min_escape_truncate(c: Complex, limit: nat)
    requires
        min_escape(c, limit) is Some,
    ensures
        min_escape(c, min_escape(c, limit)->Some_0) == min_escape(c, limit),
    decreases limit,
{
    if limit > 0 && min_escape(c, (limit - 1) as nat) is Some {
        lemma_min_escape_truncate(c, (limit - 1) as nat);
    }
}

/// Raising the budget changes nothing once the orbit has escaped: a report
/// under budget `limit1` stands under every larger budget.
pub proof fn lemma_min_escape_extend(c: Complex, limit1: nat, limit2: nat)
    requires
        min_escape(c, limit1) is Some,
        limit1 <= limit2,
    ensures
        min_escape(c, limit2) == min_escape(c, limit1),
    decreases limit2,
{
    if limit1 < limit2 {
        lemma_min_escape_extend(c, limit1, (limit2 - 1) as nat);
    }
}

/// The escape count is stable under the iteration budget: if the evaluator
/// reports the count `k` under some budget, it reports the same count `k`
/// under every budget of at least `k` iterations.
pub proof fn lemma_escape_time_monotonic(c: Complex, limit1: nat, limit2: nat, k: nat)
    requires
        min_escape(c, limit1) == Some(k),
        k <= limit2,
    ensures
        min_escape(c, limit2) == Some(k),
{
    lemma_min_escape_truncate(c, limit1);
    lemma_min_escape_extend(c, k, limit2);
}

/// Wherever one step of the iteration keeps the starting value `0` at `0`,
/// the whole orbit stays at `0`.
pub proof fn lemma_orbit_fixed_at_zero(c: Complex, n: nat)
    requires
        c_add(c_mul(c_zero(), c_zero()), c) == c_zero(),
    ensures
        orbit(c, n) == c_zero(),
    decreases n,
{
    if n > 0 {
        lemma_orbit_fixed_at_zero(c, (n - 1) as nat);
    }
}

/// The origin never escapes when it is a fixed point: wherever one step
/// keeps `0` at `0` — the double-arithmetic fact behind `0*0 + 0 = 0` for
/// `c = 0` — and `0` lies inside the escape radius, the evaluator reports
/// no escape under any budget.
pub proof fn lemma_fixed_origin_never_escapes(c: Complex, limit: nat)
    requires
        c_add(c_mul(c_zero(), c_zero()), c) == c_zero(),
        !escaped(c_zero()),
    ensures
        min_escape(c, limit) is None,
    decreases limit,
{
    if limit > 0 {
        lemma_fixed_origin_never_escapes(c, (limit - 1) as nat);
        lemma_orbit_fixed_at_zero(c, limit);
    }
}

/// A point whose orbit lies outside the escape radius after the very first
/// step — as for `c = 4 + 0i`, where `|c|` already exceeds the radius —
/// reports count 1 under every budget of at least one iteration.
pub proof fn lemma_first_step_escape(c: Complex, limit: nat)
    requires
        escaped(orbit(c, 1)),
        limit >= 1,
    ensures
        min_escape(c, limit) == Some(1 as nat),
{
    assert(min_escape(c, 0) is None);
    assert(min_escape(c, 1) == Some(1 as nat));
    lemma_min_escape_extend(c, 1, limit);
}

/// Iterate `z <- z*z + c` up to `limit` times, starting from `z = 0`;
/// report the first step after which `|z|^2 > 4.0`, or `None` where the
/// orbit stays within the escape radius for the whole budget.
pub fn escape_time(c: Complex, limit: usize) -> (r: Option<usize>)
    ensures
        match r {
            Some(k) => {
                &&& 1 <= k <= limit
                &&& min_escape(c, limit as nat) == Some(k as nat)
                &&& escaped(orbit(c, k as nat))
                &&& forall|j: nat| 1 <= j < k ==> !escaped(orbit(c, j))
            },
            None => {
                &&& min_escape(c, limit as nat) is None
                &&& forall|j: nat| 1 <= j <= limit ==> !escaped(orbit(c, j))
            },
        },
{
    let mut z = Complex { re: 0, im: 0 };
    let mut i: usize = 0;
    while i < limit
        invariant
            i <= limit,
            z == orbit(c, i as nat),
            min_escape(c, i as nat) is None,
        decreases limit - i,
    {
        z = complex_add(complex_mul(z, z), c);
        i = i + 1;
        proof {
            assert(z == orbit(c, i as nat));
        }
        if fgt(complex_norm_sqr(z), ESCAPE_THRESHOLD_BITS) {
            proof {
                lemma_min_escape_extend(c, i as nat, limit as nat);
                lemma_min_escape_bounds(c, limit as nat);
            }
            return Some(i);
        }
    }
    proof {
        lemma_min_escape_none(c, limit as nat);
    }
    None
}

} // verus!
