//! Wraparound indexing on one axis of a torus.

use vstd::prelude::*;
use vstd::arithmetic::div_mod::{
    lemma_add_mod_noop_right, lemma_fundamental_div_mod, lemma_fundamental_div_mod_converse,
    lemma_mod_bound, lemma_mod_equivalence, lemma_mod_multiples_vanish, lemma_small_mod,
};

verus! {

/// The in-bounds index that coordinate `v` resolves to on an axis of `dim` cells:
/// the Euclidean remainder, never negative.
pub open spec fn wrap(v: int, dim: int) -> int {
    v % dim
}

/// Every coordinate resolves to an index inside the axis.
pub proof fn lemma_wrap_in_bounds(v: int, dim: int)
    requires
        dim > 0,
    ensures
        0 <= wrap(v, dim) < dim,
{
    lemma_mod_bound(v, dim);
}

/// A coordinate that is already inside the axis resolves to itself.
pub proof fn lemma_wrap_identity(v: int, dim: int)
    requires
        0 <= v < dim,
    ensures
        wrap(v, dim) == v,
{
    lemma_small_mod(v as nat, dim as nat);
}

/// Going round the axis any number of times, in either direction, changes nothing.
pub proof fn lemma_wrap_periodic(v: int, turns: int, dim: int)
    requires
        dim > 0,
    ensures
        wrap(v + turns * dim, dim) == wrap(v, dim),
{
    lemma_mod_multiples_vanish(turns, v, dim);
    assert(dim * turns + v == v + turns * dim) by (nonlinear_arith);
}

/// Wrapping before adding a displacement gives the same index as wrapping after.
pub proof fn lemma_wrap_add(v: int, delta: int, dim: int)
    requires
        dim > 0,
    ensures
        wrap(wrap(v, dim) + delta, dim) == wrap(v + delta, dim),
{
    lemma_add_mod_noop_right(delta, v, dim);
}

/// The index one cell further along the axis, and the one before it.
pub proof fn lemma_wrap_neighbours(v: int, dim: int)
    requires
        dim > 0,
    ensures
        wrap(v + 1, dim) == if wrap(v, dim) + 1 == dim { 0 } else { wrap(v, dim) + 1 },
        wrap(v - 1, dim) == if wrap(v, dim) == 0 { dim - 1 } else { wrap(v, dim) - 1 },
{
    let i = wrap(v, dim);
    lemma_wrap_in_bounds(v, dim);
    lemma_wrap_add(v, 1, dim);
    lemma_wrap_add(v, -1, dim);
    if i + 1 == dim {
        lemma_wrap_periodic(0, 1, dim);
        lemma_wrap_identity(0, dim);
    } else {
        lemma_wrap_identity(i + 1, dim);
    }
    if i == 0 {
        lemma_wrap_periodic(dim - 1, -1, dim);
        lemma_wrap_identity(dim - 1, dim);
    } else {
        lemma_wrap_identity(i - 1, dim);
    }
}

/// Two coordinates resolve to the same index exactly if their difference is a
/// whole number of turns round the axis.
pub proof fn lemma_wrap_equal(u: int, v: int, dim: int)
    requires
        dim > 0,
    ensures
        wrap(u, dim) == wrap(v, dim) <==> wrap(u - v, dim) == 0,
{
    lemma_mod_equivalence(u, v, dim);
}

/// Less than one turn backwards and less than two turns forwards, only a
/// displacement of nothing or of exactly one turn leads back to the start.
pub proof fn lemma_wrap_zero_near(d: int, dim: int)
    requires
        dim > 0,
        -dim < d < 2 * dim,
    ensures
        wrap(d, dim) == 0 <==> d == 0 || d == dim,
{
    if d < 0 {
        lemma_wrap_periodic(d, 1, dim);
        lemma_wrap_identity(d + dim, dim);
    } else if d < dim {
        lemma_wrap_identity(d, dim);
    } else {
        lemma_wrap_periodic(d, -1, dim);
        lemma_wrap_identity(d - dim, dim);
    }
}

/// A coordinate resolves to the index `i` cells on from where `origin` does
/// exactly if, counted from `origin`, it resolves to `i`.
pub proof fn lemma_wrap_counted_from(v: int, origin: int, i: int, dim: int)
    requires
        0 <= i < dim,
    ensures
        wrap(v, dim) == wrap(origin + i, dim) <==> wrap(v - origin, dim) == i,
{
    lemma_wrap_in_bounds(v - origin, dim);
    lemma_wrap_equal(v, origin + i, dim);
    lemma_wrap_add(v - origin, -i, dim);
    assert(v - origin + (-i) == v - (origin + i));
    lemma_wrap_zero_near(wrap(v - origin, dim) - i, dim);
}

/// Computes `wrap` for any 64-bit coordinate.
pub fn wrap_index(v: i64, dim: usize) -> (r: usize)
    requires
        dim > 0,
    ensures
        r as int == wrap(v as int, dim as int),
        r < dim,
{
    let d: u64 = dim as u64;
    if v >= 0 {
        let r: u64 = (v as u64) % d;
        r as usize
    } else {
        let m: u64 = (-(v + 1)) as u64;
        let r: u64 = m % d;
        proof {
            let q = (m as int) / (d as int);
            lemma_fundamental_div_mod(m as int, d as int);
            assert(v as int == (-q - 1) * d + (d - 1 - r)) by (nonlinear_arith)
                requires
                    m as int == d * q + r,
                    v as int == -(m + 1),
            ;
            lemma_fundamental_div_mod_converse(v as int, d as int, -q - 1, d - 1 - r);
        }
        (d - 1 - r) as usize
    }
}

} // verus!
