//! The extra connections that the pyramid, plank and brick topologies give
//! a new Mass, beyond its link to the Mass created just before it. Each is a
//! function of the new Mass's id and of `d`, how many ids it lies after the
//! focused Mass that anchors the shape.

use vstd::prelude::*;

use crate::numbers::{
    floor_sqrt, is_root_floor, is_triangle_corner, is_tricorn, lemma_next_corner,
    lemma_prev_corner, lemma_root_floor_unique, lemma_sqrt_floor, lemma_triangle_root,
    lemma_zero_is_corner, prev_corner, prev_tricorn, sqrt_floor,
};

verus! {

/// Every entry of `s` is the id of a Mass older than `id`.
pub open spec fn all_below(s: Seq<usize>, id: int) -> bool {
    forall|t: int| 0 <= t < s.len() ==> #[trigger] s[t] < id
}

/// Every entry of `s` lies in `[lo, hi)`.
pub open spec fn all_within(s: Seq<usize>, lo: int, hi: int) -> bool {
    forall|t: int| 0 <= t < s.len() ==> lo <= #[trigger] s[t] < hi
}

/// Every id in `s`, moved `f` ids on.
pub open spec fn shift(s: Seq<usize>, f: int) -> Seq<usize> {
    s.map_values(|x: usize| (x + f) as usize)
}

/// Pyramid: a Mass that starts a row (the step after a triangle corner)
/// needs nothing more; a Mass on a corner also joins the Mass
/// `sqrt(8(d + 1) + 1) - 3` ids back; any other Mass joins the two Masses
/// `rel` and `rel + 1` ids back, where `rel` is twice its distance past the
/// step after the previous corner.
pub open spec fn pyramid_extra(id: int, d: int) -> Seq<usize> {
    if d == 0 || is_triangle_corner((d - 1) as nat) {
        seq![]
    } else if is_triangle_corner(d as nat) {
        let rel = sqrt_floor((8 * (d + 1) + 1) as nat) - 3;
        seq![(id - rel) as usize]
    } else {
        let prev_jut = prev_corner(d as nat) + 1;
        let rel = ((d * 8 + 1) - (prev_jut * 8 + 1)) / 4;
        seq![(id - rel) as usize, (id - rel - 1) as usize]
    }
}

proof fn lemma_corner_rel(d: int, k: nat)
    by (nonlinear_arith)
    requires
        d >= 2,
        k * (k + 1) == 2 * (d + 1),
    ensures
        k >= 2,
        2 * k - 2 <= d,
{
    if k < 2 {
        assert(k * (k + 1) <= 2);
    }
}

proof fn lemma_row_bound(i: int, k: nat)
    by (nonlinear_arith)
    requires
        i >= 0,
        k * (k + 1) == 2 * (i + 1),
    ensures
        1 <= k <= i + 1,
{
}

/// The pyramid's extra connections for a Mass `d_id` ids past the focused one.
pub fn pyramid_extra_links(id: usize, d_id: usize) -> (r: Vec<usize>)
    requires
        1 <= d_id <= id,
        (id + 1) * 8 + 1 <= usize::MAX,
    ensures
        r@ == pyramid_extra(id as int, d_id as int),
        all_below(r@, id as int),
{
    let mut connections: Vec<usize> = Vec::new();
    if d_id == 0 || is_tricorn(d_id - 1) {
    } else if is_tricorn(d_id) {
        proof {
            lemma_zero_is_corner();
        }
        let tri_test_1 = (d_id + 1) * 8 + 1;
        let sqrt_1 = floor_sqrt(tri_test_1);
        let ghost k = choose|k: nat| #[trigger] (k * (k + 1)) == 2 * (d_id + 1) as nat;
        proof {
            lemma_triangle_root((d_id + 1) as nat, k);
            lemma_corner_rel(d_id as int, k);
        }
        let rel_id = sqrt_1 - 3;
        connections.push(id - rel_id);
    } else {
        let ghost i = prev_corner(d_id as nat);
        proof {
            lemma_prev_corner(d_id as nat);
        }
        let prev_jut = prev_tricorn(d_id) + 1;
        proof {
            let k = choose|k: nat| #[trigger] (k * (k + 1)) == 2 * (i + 1);
            lemma_row_bound(i as int, k);
            lemma_next_corner(i, k);
            assert(d_id <= i + k);
        }
        let curr_tri_test = d_id * 8 + 1;
        let prev_jut_tri_test = prev_jut * 8 + 1;
        let rel_id = (curr_tri_test - prev_jut_tri_test) / 4;
        connections.push(id - rel_id);
        connections.push(id - rel_id - 1);
    }
    connections
}


/// A Mass `d` ids past the focused one juts out of its plank or brick when
/// `d` is a perfect square `s * s`, or `s * s + s`, where `s` is the floor of
/// the square root of `d`.
pub open spec fn is_jutter(d: int) -> bool {
    let s = sqrt_floor(d as nat) as int;
    d == s * s || d == s * s + s
}

/// How many ids back a Mass that does not jut out finds its horizontal or
/// vertical neighbour: `4s - 3` before the rectangle jutter `s * s + s`, and
/// `4s - 1` after it.
pub open spec fn jut_rel(s: int, d: int) -> int {
    if d < s * s + s {
        4 * s - 3
    } else {
        4 * s - 1
    }
}

/// Plank: a Mass that does not jut out also joins the Mass `jut_rel` ids
/// back; a Mass that juts out needs nothing more.
pub open spec fn plank_extra(id: int, d: int) -> Seq<usize> {
    let s = sqrt_floor(d as nat) as int;
    if !is_jutter(d) {
        let rel = jut_rel(s, d);
        if rel != 0 {
            seq![(id - rel) as usize]
        } else {
            seq![]
        }
    } else {
        seq![]
    }
}

/// Brick: the third Mass joins the focused Mass `f`. A Mass that juts out
/// joins the focused Mass `f` while `d < 7`, and otherwise the Mass `4s - 4` (on a square)
/// or `4s - 2` (on a rectangle) ids back. Any other Mass joins the Mass
/// `jut_rel` ids back, then diagonals: after a jutter, the Mass two ids back
/// and (past `d = 6`) the Mass `rel - 1` ids back; before a jutter (past
/// `d = 6`) the Mass `rel + 1` ids back; elsewhere (past `d = 6`) both the
/// Masses `rel + 1` and `rel - 1` ids back.
pub open spec fn brick_extra(id: int, d: int, f: int) -> Seq<usize> {
    if d == 2 {
        seq![f as usize]
    } else {
        let s = sqrt_floor(d as nat) as int;
        if is_jutter(d) {
            if d < 7 {
                seq![f as usize]
            } else {
                let rel = if d == s * s {
                    4 * s - 4
                } else {
                    4 * s - 2
                };
                seq![(id - rel) as usize]
            }
        } else {
            let rel = jut_rel(s, d);
            let first: Seq<usize> = if rel != 0 {
                seq![(id - rel) as usize]
            } else {
                seq![]
            };
            if is_jutter(d - 1) {
                first + seq![(id - 2) as usize] + if d > 6 {
                    seq![(id - rel + 1) as usize]
                } else {
                    seq![]
                }
            } else if is_jutter(d + 1) {
                first + if d > 6 {
                    seq![(id - rel - 1) as usize]
                } else {
                    seq![]
                }
            } else {
                first + if d > 6 {
                    seq![(id - rel - 1) as usize, (id - rel + 1) as usize]
                } else {
                    seq![]
                }
            }
        }
    }
}

/// The square `s * s` and the rectangle `s * s + s` both jut out.
proof fn lemma_jutters(s: nat)
    ensures
        is_jutter((s * s) as int),
        is_jutter((s * s + s) as int),
{
    assert((s + 1) * (s + 1) == s * s + 2 * s + 1) by (nonlinear_arith);
    lemma_root_floor_unique(s as int, s * s);
    lemma_root_floor_unique(s as int, s * s + s);
}

proof fn lemma_jut_bounds(s: int, d: int)
    by (nonlinear_arith)
    requires
        d >= 1,
        is_root_floor(s, d),
    ensures
        1 <= s <= d,
        s * s + 2 * s + 1 == (s + 1) * (s + 1),
        d > s * s ==> 4 * s - 4 <= d - 1,
        d > s * s + s ==> 4 * s - 1 <= d,
        d == s * s && d >= 7 ==> s >= 3 && 4 * s - 4 <= d,
        d == s * s + s && d >= 7 ==> s >= 3 && 4 * s - 2 <= d,
        d > 6 ==> s >= 2,
        d >= s * s + 2 ==> 4 * s - 2 <= d,
        d >= s * s + s + 2 ==> 4 * s <= d,
{
    assert((s - 2) * (s - 2) >= 0);
    assert((s - 1) * (s - 2) >= 0) by {
        if s >= 2 {
        } else {
            assert(s == 1);
        }
    }
    if s == 0 {
        assert(d < 1);
    }
    if s <= 2 {
        assert(s * s + s <= 6) by {
            assert(s * s <= 4);
        }
    }
    if s >= 3 {
        assert(s * s >= 3 * s);
    }
}

/// The plank's extra connection for a Mass `d_id` ids past the focused one.
pub fn plank_extra_links(id: usize, d_id: usize) -> (r: Vec<usize>)
    requires
        1 <= d_id <= id,
        (id + 1) * 8 + 1 <= usize::MAX,
    ensures
        r@ == plank_extra(id as int, d_id as int),
        all_below(r@, id as int),
{
    let mut connections: Vec<usize> = Vec::new();
    let floor_sqrt_d = floor_sqrt(d_id);
    proof {
        lemma_sqrt_floor(d_id as nat);
        lemma_jut_bounds(floor_sqrt_d as int, d_id as int);
    }
    let square_jutter = floor_sqrt_d * floor_sqrt_d;
    let rectangle_jutter = square_jutter + floor_sqrt_d;
    if d_id != square_jutter && d_id != rectangle_jutter {
        let rel_id = if d_id < rectangle_jutter {
            floor_sqrt_d * 4 - 3
        } else {
            floor_sqrt_d * 4 - 1
        };
        if rel_id != 0 {
            connections.push(id - rel_id);
        }
    }
    connections
}

/// The brick's extra connections for a Mass `d_id` ids past the focused Mass
/// `focused`.
pub fn brick_extra_links(id: usize, d_id: usize, focused: usize) -> (r: Vec<usize>)
    requires
        1 <= d_id <= id,
        focused < id,
        (id + 1) * 8 + 1 <= usize::MAX,
    ensures
        r@ == brick_extra(id as int, d_id as int, focused as int),
        all_below(r@, id as int),
{
    let mut connections: Vec<usize> = Vec::new();
    if d_id == 2 {
        connections.push(focused);
        return connections;
    }
    let floor_sqrt_d = floor_sqrt(d_id);
    proof {
        lemma_sqrt_floor(d_id as nat);
        lemma_jut_bounds(floor_sqrt_d as int, d_id as int);
        lemma_jutters(floor_sqrt_d as nat);
    }
    let square_jutter = floor_sqrt_d * floor_sqrt_d;
    let rectangle_jutter = square_jutter + floor_sqrt_d;
    let is_jutter_d = d_id == square_jutter || d_id == rectangle_jutter;
    if is_jutter_d {
        if d_id < 7 {
            connections.push(focused);
        } else {
            let rel_id = if d_id == square_jutter {
                floor_sqrt_d * 4 - 4
            } else {
                floor_sqrt_d * 4 - 2
            };
            connections.push(id - rel_id);
        }
        return connections;
    }
    let rel_id = if d_id < rectangle_jutter {
        floor_sqrt_d * 4 - 3
    } else {
        floor_sqrt_d * 4 - 1
    };
    if rel_id != 0 {
        connections.push(id - rel_id);
    }
    let ghost first = connections@;
    let prev_d_id = d_id - 1;
    let prev_floor_sqrt = floor_sqrt(prev_d_id);
    proof {
        lemma_sqrt_floor(prev_d_id as nat);
        assert(prev_floor_sqrt * prev_floor_sqrt <= prev_d_id) by (nonlinear_arith)
            requires prev_floor_sqrt == sqrt_floor(prev_d_id as nat), is_root_floor(prev_floor_sqrt as int, prev_d_id as int);
        assert(prev_floor_sqrt <= prev_floor_sqrt * prev_floor_sqrt + 1) by (nonlinear_arith);
        if d_id == square_jutter + 1 {
            lemma_jutters(floor_sqrt_d as nat);
        }
    }
    let prev_square_jutter = prev_floor_sqrt * prev_floor_sqrt;
    let prev_is_jutter = prev_d_id == prev_square_jutter || prev_d_id == prev_square_jutter + prev_floor_sqrt;
    if prev_is_jutter {
        connections.push(id - 2);
        if d_id > 6 {
            connections.push(id - rel_id + 1);
        }
        proof {
            assert(connections@ =~= brick_extra(id as int, d_id as int, focused as int));
        }
    } else {
        let next_d_id = d_id + 1;
        let next_floor_sqrt = floor_sqrt(next_d_id);
        proof {
            lemma_sqrt_floor(next_d_id as nat);
            assert(next_floor_sqrt * next_floor_sqrt <= next_d_id) by (nonlinear_arith)
                requires is_root_floor(next_floor_sqrt as int, next_d_id as int);
            assert(next_floor_sqrt <= next_floor_sqrt * next_floor_sqrt + 1) by (nonlinear_arith);
        }
        let next_square_jutter = next_floor_sqrt * next_floor_sqrt;
        let next_is_jutter = next_d_id == next_square_jutter || next_d_id == next_square_jutter + next_floor_sqrt;
        if next_is_jutter {
            if d_id > 6 {
                connections.push(id - rel_id - 1);
            }
        } else {
            if d_id > 6 {
                connections.push(id - rel_id - 1);
                connections.push(id - rel_id + 1);
            }
        }
        proof {
            assert(connections@ =~= brick_extra(id as int, d_id as int, focused as int));
        }
    }
    connections
}

/// The pyramid's extra connections name older Masses.
pub proof fn lemma_pyramid_extra_below(id: int, d: int)
    requires
        1 <= d <= id,
        id <= usize::MAX,
    ensures
        all_below(pyramid_extra(id, d), id),
        all_within(pyramid_extra(id, d), id - d, id),
{
    lemma_zero_is_corner();
    if is_triangle_corner((d - 1) as nat) {
    } else if is_triangle_corner(d as nat) {
        let n = (d + 1) as nat;
        let k = choose|k: nat| #[trigger] (k * (k + 1)) == 2 * n;
        lemma_triangle_root(n, k);
        lemma_corner_rel(d, k);
    } else {
        lemma_prev_corner(d as nat);
        let i = prev_corner(d as nat);
        let k = choose|k: nat| #[trigger] (k * (k + 1)) == 2 * (i + 1);
        lemma_row_bound(i as int, k);
        lemma_next_corner(i, k);
        assert(d <= i + k);
    }
}

/// The plank's extra connection names an older Mass.
pub proof fn lemma_plank_extra_below(id: int, d: int)
    requires
        1 <= d <= id,
        id <= usize::MAX,
    ensures
        all_below(plank_extra(id, d), id),
        all_within(plank_extra(id, d), id - d, id),
{
    lemma_sqrt_floor(d as nat);
    lemma_jut_bounds(sqrt_floor(d as nat) as int, d);
}

/// The brick's extra connections name older Masses, given an older anchor.
pub proof fn lemma_brick_extra_below(id: int, d: int, f: int)
    requires
        1 <= d <= id,
        id <= usize::MAX,
        0 <= f < id,
    ensures
        all_below(brick_extra(id, d, f), id),
        f >= id - d ==> all_within(brick_extra(id, d, f), id - d, id),
{
    if d != 2 {
        let s = sqrt_floor(d as nat);
        lemma_sqrt_floor(d as nat);
        lemma_jut_bounds(s as int, d);
        lemma_jutters(s);
        lemma_sqrt_floor((d - 1) as nat);
        lemma_sqrt_floor((d + 1) as nat);
        let b = brick_extra(id, d, f);
        assert forall|t: int| 0 <= t < b.len() implies #[trigger] b[t] < id by {}
        assert forall|t: int| 0 <= t < b.len() && f >= id - d implies id - d <= #[trigger] b[t] by {}
    }
}

/// The `r`-th triangle number, `0 + 1 + ... + r`.
pub open spec fn tri(r: nat) -> nat
    decreases r,
{
    if r == 0 {
        0
    } else {
        tri((r - 1) as nat) + r
    }
}

proof fn lemma_tri(r: nat)
    ensures
        2 * tri(r) == r * (r + 1),
    decreases r,
{
    if r > 0 {
        let q = (r - 1) as nat;
        lemma_tri(q);
        assert(tri(r) == tri(q) + r);
        assert(2 * tri(r) == r * (r + 1)) by (nonlinear_arith)
            requires
                q + 1 == r,
                tri(r) == tri(q) + r,
                2 * tri(q) == q * (q + 1),
        ;
    } else {
        assert(r * (r + 1) == 0) by (nonlinear_arith)
            requires
                r == 0,
        ;
    }
}

/// No triangle number lies strictly between the `r`-th and the next one.
proof fn lemma_not_triangular_between(n: nat, r: nat)
    requires
        r * (r + 1) < 2 * n < (r + 1) * (r + 2),
    ensures
        !crate::numbers::is_triangular(n),
{
    if crate::numbers::is_triangular(n) {
        let k = choose|k: nat| #[trigger] (k * (k + 1)) == 2 * n;
        if k <= r {
            assert(k * (k + 1) <= r * (r + 1)) by (nonlinear_arith) requires k <= r;
        } else {
            assert(k * (k + 1) >= (r + 1) * (r + 2)) by (nonlinear_arith) requires k >= r + 1;
        }
    }
}

/// Row `r` of a pyramid holds the steps `tri(r)` to `tri(r) + r`: the last
/// of them is a triangle corner, and the step before the first is one.
proof fn lemma_row_corners(r: nat, p: nat)
    requires
        r >= 1,
        p <= r,
    ensures
        is_triangle_corner(tri(r) + p) <==> p == r,
        is_triangle_corner((tri(r) + p - 1) as nat) <==> p == 0,
{
    lemma_tri(r);
    let d = tri(r) + p;
    assert((r + 1) * (r + 2) == r * (r + 1) + 2 * r + 2) by (nonlinear_arith);
    if p == r {
        let k: nat = r + 1;
        assert(k * (k + 1) == 2 * (d + 1));
    } else {
        lemma_not_triangular_between(d + 1, r);
    }
    if p == 0 {
        assert(r * (r + 1) == 2 * ((d - 1) as nat + 1));
    } else {
        lemma_not_triangular_between(d, r);
    }
}

/// The pyramid, built outward from its apex `f` one row at a time: row `r`
/// holds the Masses `f + tri(r)` to `f + tri(r) + r`, and the Mass at
/// position `p` of row `r` sits on the row before it. Besides the Mass just
/// before it, the first Mass of a row needs nothing more; the last joins
/// the first Mass of the row before; any other joins the two Masses at
/// positions `r - p` and `r - p - 1` of the row before.
pub proof fn pyramid_connects_rows(f: int, r: nat, p: nat)
    requires
        f >= 0,
        r >= 1,
        p <= r,
    ensures
        p == 0 ==> pyramid_extra(f + tri(r) + p, (tri(r) + p) as int) == Seq::<usize>::empty(),
        p == r ==> pyramid_extra(f + tri(r) + p, (tri(r) + p) as int) == seq![
            (f + tri((r - 1) as nat)) as usize,
        ],
        0 < p < r ==> pyramid_extra(f + tri(r) + p, (tri(r) + p) as int) == seq![
            (f + tri((r - 1) as nat) + (r - p)) as usize,
            (f + tri((r - 1) as nat) + (r - p - 1)) as usize,
        ],
{
    let d = tri(r) + p;
    let id = f + d;
    lemma_tri(r);
    lemma_row_corners(r, p);
    assert(tri(r) == tri((r - 1) as nat) + r);
    if p == r {
        let k: nat = r + 1;
        assert((r + 1) * (r + 2) == r * (r + 1) + 2 * r + 2) by (nonlinear_arith);
        assert(k * (k + 1) == 2 * (d + 1));
        lemma_triangle_root((d + 1) as nat, k);
    } else if p > 0 {
        lemma_prev_corner(d as nat);
        let i = prev_corner(d as nat);
        let c = (tri(r) - 1) as nat;
        assert(r * (r + 1) == 2 * (c + 1));
        assert(is_triangle_corner(c));
        if i < c {
            assert(!is_triangle_corner(c));
        }
        if i > c {
            assert((r + 1) * (r + 2) == r * (r + 1) + 2 * r + 2) by (nonlinear_arith);
            lemma_not_triangular_between(i + 1, r);
        }
        assert(i == c);
    }
}

/// A pyramid has the same shape wherever its apex is: the extra links of
/// the Mass `d` steps past an apex at `f` are those of the Mass `d` steps
/// past an apex at 0, moved `f` ids on.
pub proof fn pyramid_is_translation_invariant(f: int, d: int)
    requires
        0 <= f,
        1 <= d,
        f + d <= usize::MAX,
    ensures
        pyramid_extra(f + d, d) == shift(pyramid_extra(d, d), f),
{
    lemma_zero_is_corner();
    if is_triangle_corner((d - 1) as nat) {
        assert(pyramid_extra(f + d, d) =~= shift(pyramid_extra(d, d), f));
    } else if is_triangle_corner(d as nat) {
        let n = (d + 1) as nat;
        let k = choose|k: nat| #[trigger] (k * (k + 1)) == 2 * n;
        lemma_triangle_root(n, k);
        lemma_corner_rel(d, k);
        assert(pyramid_extra(f + d, d) =~= shift(pyramid_extra(d, d), f));
    } else {
        lemma_prev_corner(d as nat);
        let i = prev_corner(d as nat);
        let k = choose|k: nat| #[trigger] (k * (k + 1)) == 2 * (i + 1);
        lemma_row_bound(i as int, k);
        lemma_next_corner(i, k);
        assert(d <= i + k);
        assert(pyramid_extra(f + d, d) =~= shift(pyramid_extra(d, d), f));
    }
}

/// A plank has the same shape wherever its anchor is: the extra link of the
/// Mass `d` steps past an anchor at `f` is that of the Mass `d` steps past
/// an anchor at 0, moved `f` ids on.
pub proof fn plank_is_translation_invariant(f: int, d: int)
    requires
        0 <= f,
        1 <= d,
        f + d <= usize::MAX,
    ensures
        plank_extra(f + d, d) == shift(plank_extra(d, d), f),
{
    lemma_sqrt_floor(d as nat);
    lemma_jut_bounds(sqrt_floor(d as nat) as int, d);
    assert(plank_extra(f + d, d) =~= shift(plank_extra(d, d), f));
}

/// A brick has the same shape wherever its anchor is: the extra links of
/// the Mass `d` steps past an anchor at `f` are those of the Mass `d` steps
/// past an anchor at 0, moved `f` ids on.
pub proof fn brick_is_translation_invariant(f: int, d: int)
    requires
        0 <= f,
        1 <= d,
        f + d <= usize::MAX,
    ensures
        brick_extra(f + d, d, f) == shift(brick_extra(d, d, 0), f),
{
    if d != 2 {
        let s = sqrt_floor(d as nat);
        lemma_sqrt_floor(d as nat);
        lemma_jut_bounds(s as int, d);
        lemma_jutters(s);
        lemma_sqrt_floor((d - 1) as nat);
        lemma_sqrt_floor((d + 1) as nat);
    }
    assert(brick_extra(f + d, d, f) =~= shift(brick_extra(d, d, 0), f));
}

} // verus!
