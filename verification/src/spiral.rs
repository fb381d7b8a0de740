//! The square spiral that plank and brick lay their Masses on. Step 0 sits
//! at the centre; each layer `s` (the steps from `s * s` to `(s + 1)^2 - 1`)
//! adds a column and then a row round the square built so far, on the
//! right and top for odd `s`, on the left and bottom for even `s`.

use vstd::prelude::*;

use crate::numbers::{lemma_root_floor_unique, sqrt_floor};
use crate::topology::{brick_extra, plank_extra};

verus! {

/// The grid cell of step `d` of the square spiral.
pub open spec fn spiral(d: nat) -> (int, int) {
    let s = sqrt_floor(d) as int;
    let k = s / 2;
    let e = d - s * s;
    if s % 2 == 1 {
        if e <= s {
            (k + 1, -k + e)
        } else {
            (k + 1 - (e - s), k + 1)
        }
    } else {
        if e <= s {
            (-k, k - e)
        } else {
            (-k + (e - s), -k)
        }
    }
}

/// The cells `a` and `b` share a side.
pub open spec fn side_by_side(a: (int, int), b: (int, int)) -> bool {
    let dx = a.0 - b.0;
    let dy = a.1 - b.1;
    (dx == 0 && (dy == 1 || dy == -1)) || (dy == 0 && (dx == 1 || dx == -1))
}

/// The cells `a` and `b` share a side or a corner.
pub open spec fn touching(a: (int, int), b: (int, int)) -> bool {
    let dx = a.0 - b.0;
    let dy = a.1 - b.1;
    -1 <= dx <= 1 && -1 <= dy <= 1 && !(dx == 0 && dy == 0)
}

/// Step `s * s + e` lies in layer `s` while `e <= 2s`.
proof fn lemma_layer(s: nat, e: nat)
    requires
        e <= 2 * s,
    ensures
        sqrt_floor(s * s + e) == s,
{
    assert((s + 1) * (s + 1) == s * s + 2 * s + 1) by (nonlinear_arith);
    lemma_root_floor_unique(s as int, s * s + e);
}

proof fn lemma_squares(s: int)
    by (nonlinear_arith)
    ensures
        (s - 2) * (s - 2) == s * s - 4 * s + 4,
        (s - 1) * (s - 1) == s * s - 2 * s + 1,
        (s + 1) * (s + 1) == s * s + 2 * s + 1,
        s >= 0 ==> s * s >= 0,
        s >= 1 ==> s * s >= s,
{
}

/// Each step of the spiral sits beside the step before it.
pub proof fn spiral_steps_are_side_by_side(d: nat)
    requires
        d >= 1,
    ensures
        side_by_side(spiral((d - 1) as nat), spiral(d)),
{
    let s = sqrt_floor(d);
    crate::numbers::lemma_sqrt_floor(d);
    lemma_squares(s as int);
    let e = (d - s * s) as nat;
    lemma_layer(s, e);
    if e >= 1 {
        lemma_layer(s, (e - 1) as nat);
        assert(s * s + (e - 1) == d - 1);
    } else {
        assert(s >= 1);
        let p = (s - 1) as nat;
        lemma_squares(p as int);
        assert(p * p + 2 * p == d - 1);
        lemma_layer(p, 2 * p);
    }
}

/// Plank joins each new Mass only to Masses beside it on the square spiral:
/// the Mass just before it, and its extra link.
pub proof fn plank_links_are_side_by_side(d: nat)
    requires
        1 <= d <= usize::MAX,
    ensures
        side_by_side(spiral((d - 1) as nat), spiral(d)),
        forall|t: int|
            0 <= t < plank_extra(d as int, d as int).len() ==> side_by_side(
                spiral(#[trigger] plank_extra(d as int, d as int)[t] as nat),
                spiral(d),
            ),
{
    spiral_steps_are_side_by_side(d);
    let s = sqrt_floor(d);
    crate::numbers::lemma_sqrt_floor(d);
    lemma_squares(s as int);
    let e = (d - s * s) as nat;
    lemma_layer(s, e);
    let p = plank_extra(d as int, d as int);
    if p.len() > 0 {
        if e < s {
            // A column step: the step `4s - 3` back sits beside it in the
            // column of layer `s - 2`.
            assert(s >= 2);
            let s2 = (s - 2) as nat;
            lemma_squares(s2 as int);
            lemma_layer(s2, (e - 1) as nat);
            assert(p[0] as int == s2 * s2 + (e - 1));
        } else {
            let r = e - s;
            if r < s {
                assert(s >= 2);
                let s2 = (s - 2) as nat;
                lemma_squares(s2 as int);
                lemma_layer(s2, (s2 + r - 1) as nat);
                assert(p[0] as int == s2 * s2 + (s2 + r - 1));
            } else {
                let s1 = (s - 1) as nat;
                lemma_squares(s1 as int);
                lemma_layer(s1, 0);
                assert(p[0] as int == s1 * s1 + 0);
            }
        }
    }
}

/// Step `x`, given as offset `e` into layer `s`, when `e <= 2s`: a helper
/// that names the layer of a step for the spiral's definition.
proof fn lemma_at(x: nat, s: nat, e: nat)
    requires
        x == s * s + e,
        e <= 2 * s,
    ensures
        sqrt_floor(x) == s,
{
    lemma_layer(s, e);
}

/// Every link that brick gives the Mass `d` steps past an anchor at 0
/// touches it on the spiral.
pub open spec fn brick_touches(d: nat) -> bool {
    forall|t: int|
        0 <= t < brick_extra(d as int, d as int, 0).len() ==> touching(
            spiral(#[trigger] brick_extra(d as int, d as int, 0)[t] as nat),
            spiral(d),
        )
}

proof fn lemma_brick_jutter(d: nat, s: nat, e: nat)
    requires
        d == s * s + e,
        e == 0 || e == s,
        s >= 1,
        d <= usize::MAX,
    ensures
        brick_touches(d),
{
    lemma_squares(s as int);
    lemma_at(d, s, e);
    lemma_at(0, 0, 0);
    if d >= 7 {
        assert(s >= 3) by {
            if s <= 2 {
                assert(s * s <= 4) by (nonlinear_arith) requires s <= 2;
            }
        }
        let s2 = (s - 2) as nat;
        lemma_squares(s2 as int);
        if e == 0 {
            lemma_at(s2 * s2, s2, 0);
        } else {
            lemma_at(s2 * s2 + s2, s2, s2);
        }
    }
}

proof fn lemma_brick_column(d: nat, s: nat, e: nat)
    requires
        d == s * s + e,
        1 <= e < s,
        d <= usize::MAX,
    ensures
        brick_touches(d),
{
    lemma_squares(s as int);
    lemma_at(d, s, e);
    lemma_at((d - 1) as nat, s, (e - 1) as nat);
    lemma_at(d + 1, s, e + 1);
    let s2 = (s - 2) as nat;
    lemma_squares(s2 as int);
    let t0 = s2 * s2 + (e - 1);
    lemma_at(t0 as nat, s2, (e - 1) as nat);
    if e == 1 {
        let s1 = (s - 1) as nat;
        lemma_squares(s1 as int);
        lemma_at((d - 2) as nat, s1, 2 * s1);
        if e <= 2 * s2 {
            lemma_at((t0 + 1) as nat, s2, e);
        }
    } else {
        lemma_at((t0 - 1) as nat, s2, (e - 2) as nat);
        if e < s - 1 {
            lemma_at((t0 + 1) as nat, s2, e);
        }
    }
}

proof fn lemma_brick_row_first(d: nat, s: nat)
    requires
        d == s * s + s + 1,
        s >= 1,
        d <= usize::MAX,
    ensures
        brick_touches(d),
{
    lemma_squares(s as int);
    lemma_at(d, s, s + 1);
    lemma_at((d - 1) as nat, s, s);
    lemma_at((d - 2) as nat, s, (s - 1) as nat);
    lemma_at(0, 0, 0);
    if s >= 2 {
        let s2 = (s - 2) as nat;
        lemma_squares(s2 as int);
        let t0 = s2 * s2 + s2;
        lemma_at(t0 as nat, s2, s2);
        if s >= 3 {
            lemma_at((t0 + 1) as nat, s2, s2 + 1);
        } else {
            lemma_at((t0 + 1) as nat, 1, 0);
        }
    }
}

proof fn lemma_brick_row_middle(d: nat, s: nat, r: nat)
    requires
        d == s * s + s + r,
        2 <= r < s,
        d <= usize::MAX,
    ensures
        brick_touches(d),
{
    lemma_squares(s as int);
    lemma_at(d, s, s + r);
    lemma_at((d - 1) as nat, s, (s + r - 1) as nat);
    lemma_at(d + 1, s, s + r + 1);
    let s2 = (s - 2) as nat;
    let s1 = (s - 1) as nat;
    lemma_squares(s2 as int);
    lemma_squares(s1 as int);
    let t0 = s2 * s2 + s2 + r - 1;
    lemma_at(t0 as nat, s2, (s2 + r - 1) as nat);
    lemma_at((t0 - 1) as nat, s2, (s2 + r - 2) as nat);
    if r < s - 1 {
        lemma_at((t0 + 1) as nat, s2, s2 + r);
    } else {
        lemma_at((t0 + 1) as nat, s1, 0);
    }
}

proof fn lemma_brick_row_last(d: nat, s: nat)
    requires
        d == s * s + s + s,
        s >= 2,
        d <= usize::MAX,
    ensures
        brick_touches(d),
{
    lemma_squares(s as int);
    lemma_squares(s + 1int);
    lemma_at(d, s, s + s);
    lemma_at((d - 1) as nat, s, (s + s - 1) as nat);
    lemma_at(d + 1, s + 1, 0);
    let s2 = (s - 2) as nat;
    let s1 = (s - 1) as nat;
    lemma_squares(s2 as int);
    lemma_squares(s1 as int);
    let t0 = s1 * s1;
    lemma_at(t0 as nat, s1, 0);
    lemma_at((t0 - 1) as nat, s2, 2 * s2);
}

/// Brick joins each new Mass only to Masses that touch it on the square
/// spiral, side by side or corner to corner: the Mass just before it and
/// each of its extra links.
pub proof fn brick_links_touch(d: nat)
    requires
        1 <= d <= usize::MAX,
    ensures
        touching(spiral((d - 1) as nat), spiral(d)),
        brick_touches(d),
{
    spiral_steps_are_side_by_side(d);
    let s = sqrt_floor(d);
    crate::numbers::lemma_sqrt_floor(d);
    lemma_squares(s as int);
    let e = (d - s * s) as nat;
    if d == 2 {
        lemma_at(0, 0, 0);
        lemma_at(2, 1, 1);
    } else if e == 0 || e == s {
        lemma_brick_jutter(d, s, e);
    } else if e < s {
        lemma_brick_column(d, s, e);
    } else if e == s + 1 {
        lemma_brick_row_first(d, s);
    } else if e < 2 * s {
        lemma_brick_row_middle(d, s, (e - s) as nat);
    } else {
        lemma_brick_row_last(d, s);
    }
}

} // verus!
