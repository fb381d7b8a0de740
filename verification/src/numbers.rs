//! Integer helpers behind the topologies: floor square roots, triangle
//! numbers, and the radius that each size setting stands for.

use vstd::prelude::*;

verus! {

/// The radius, in pixels, of the matter size `size`: 80 pixels scaled by
/// 30%, 50%, 70%, 100% or 150% for sizes 0 to 4, and 100% for any other code.
pub open spec fn size_radius(size: u8) -> int {
    let percent: int = if size == 0 {
        30
    } else if size == 1 {
        50
    } else if size == 2 {
        70
    } else if size == 3 {
        100
    } else if size == 4 {
        150
    } else {
        100
    };
    80 * percent / 100
}

/// The radius in pixels of a matter size setting.
pub fn size_to_radius(size: u8) -> (r: u32)
    ensures
        r == size_radius(size),
{
    match size {
        0 => 24,
        1 => 40,
        2 => 56,
        3 => 80,
        4 => 120,
        _ => 80,
    }
}


/// The floor of the square root of `n`, built up one integer at a time.
pub open spec fn sqrt_floor(n: nat) -> nat
    decreases n,
{
    if n == 0 {
        0
    } else {
        let s = sqrt_floor((n - 1) as nat);
        if (s + 1) * (s + 1) <= n {
            s + 1
        } else {
            s
        }
    }
}

/// `r` is the floor of the square root of `n`.
pub open spec fn is_root_floor(r: int, n: int) -> bool {
    0 <= r && r * r <= n && n < (r + 1) * (r + 1)
}

proof fn lemma_square_monotonic(a: int, b: int)
    by (nonlinear_arith)
    requires
        0 <= a <= b,
    ensures
        a * a <= b * b,
{
}

/// `sqrt_floor(n)` squared does not pass `n`, and its successor squared does.
pub proof fn lemma_sqrt_floor(n: nat)
    ensures
        is_root_floor(sqrt_floor(n) as int, n as int),
    decreases n,
{
    if n > 0 {
        lemma_sqrt_floor((n - 1) as nat);
        let s = sqrt_floor((n - 1) as nat);
        if (s + 1) * (s + 1) <= n {
            assert((s + 2) * (s + 2) == (s + 1) * (s + 1) + 2 * s + 3) by (nonlinear_arith);
        }
    }
}

/// The floor of a square root is the one integer whose square does not pass
/// `n` while its successor's does.
pub proof fn lemma_root_floor_unique(r: int, n: nat)
    requires
        is_root_floor(r, n as int),
    ensures
        r == sqrt_floor(n),
{
    lemma_sqrt_floor(n);
    let s = sqrt_floor(n) as int;
    if r < s {
        lemma_square_monotonic(r + 1, s);
    } else if s < r {
        lemma_square_monotonic(s + 1, r);
    }
}

/// The floor of the square root of `n`.
pub fn floor_sqrt(n: usize) -> (r: usize)
    ensures
        r == sqrt_floor(n as nat),
{
    let ghost g: nat = n as nat;
    let n_wide: u128 = n as u128;
    let mut lo: u128 = 0;
    let mut hi: u128 = n_wide + 1;
    assert(n_wide < (n_wide + 1) * (n_wide + 1)) by (nonlinear_arith);
    while hi - lo > 1
        invariant
            n_wide == n,
            lo < hi <= n_wide + 1,
            lo * lo <= n_wide,
            n_wide < hi * hi,
        decreases hi - lo,
    {
        let mid: u128 = lo + (hi - lo) / 2;
        assert(mid * mid <= 0xffff_ffff_ffff_ffff * 0xffff_ffff_ffff_ffff) by {
            lemma_square_monotonic(mid as int, 0xffff_ffff_ffff_ffff);
        }
        if mid * mid <= n_wide {
            lo = mid;
        } else {
            hi = mid;
        }
    }
    proof {
        lemma_root_floor_unique(lo as int, g);
    }
    lo as usize
}


/// `n` is a triangle number: 1, 3, 6, 10, 15, ...
pub open spec fn is_triangular(n: nat) -> bool {
    exists|k: nat| #[trigger] (k * (k + 1)) == 2 * n
}

/// The zero-based step `z` of a pyramid lands on a triangle corner: `z + 1`
/// is a triangle number, so the steps 0, 2, 5, 9, 14, ... are corners.
pub open spec fn is_triangle_corner(z: nat) -> bool {
    is_triangular(z + 1)
}

/// When `n` is the `k`-th triangle number, `8n + 1` is the square of `2k + 1`.
pub proof fn lemma_triangle_root(n: nat, k: nat)
    requires
        k * (k + 1) == 2 * n,
    ensures
        sqrt_floor(8 * n + 1) == 2 * k + 1,
{
    assert((2 * k + 1) * (2 * k + 1) == 4 * (k * (k + 1)) + 1) by (nonlinear_arith);
    assert((2 * k + 2) * (2 * k + 2) == (2 * k + 1) * (2 * k + 1) + 4 * k + 3) by (nonlinear_arith);
    lemma_root_floor_unique((2 * k + 1) as int, 8 * n + 1);
}

/// The triangle number test: `n` is a triangle number exactly when `8n + 1`
/// is a perfect square.
pub proof fn lemma_triangular_iff_square(n: nat)
    ensures
        is_triangular(n) <==> sqrt_floor(8 * n + 1) * sqrt_floor(8 * n + 1) == 8 * n + 1,
{
    let r = sqrt_floor(8 * n + 1);
    if is_triangular(n) {
        let k = choose|k: nat| #[trigger] (k * (k + 1)) == 2 * n;
        lemma_triangle_root(n, k);
        assert((2 * k + 1) * (2 * k + 1) == 4 * (k * (k + 1)) + 1) by (nonlinear_arith);
    }
    if r * r == 8 * n + 1 {
        let q = r / 2;
        assert(r == 2 * q + r % 2);
        if r % 2 == 0 {
            assert(r * r == 4 * (q * q)) by (nonlinear_arith) requires r == 2 * q;
        } else {
            let k: nat = q;
            assert(r * r == 4 * (k * (k + 1)) + 1) by (nonlinear_arith) requires r == 2 * k + 1;
            assert(k * (k + 1) == 2 * n);
        }
    }
}

/// Whether the zero-based step `zero_indexed_id` lands on a triangle corner,
/// by the triangle number test on `(zero_indexed_id + 1) * 8 + 1`.
pub fn is_tricorn(zero_indexed_id: usize) -> (b: bool)
    requires
        (zero_indexed_id + 1) * 8 + 1 <= usize::MAX,
    ensures
        b == is_triangle_corner(zero_indexed_id as nat),
{
    let one_indexed_id = zero_indexed_id + 1;
    let square = one_indexed_id * 8 + 1;
    let root = floor_sqrt(square);
    proof {
        lemma_sqrt_floor(square as nat);
        lemma_triangular_iff_square(one_indexed_id as nat);
    }
    root * root == square
}

/// The latest triangle corner strictly before step `z`, or 0 when there is
/// none.
pub open spec fn prev_corner(z: nat) -> nat
    decreases z,
{
    if z == 0 {
        0
    } else if is_triangle_corner((z - 1) as nat) {
        (z - 1) as nat
    } else {
        prev_corner((z - 1) as nat)
    }
}

/// The latest triangle corner strictly before step `zero_indexed_id`, or 0
/// when there is none.
pub fn prev_tricorn(zero_indexed_id: usize) -> (c: usize)
    requires
        (zero_indexed_id + 1) * 8 + 1 <= usize::MAX,
    ensures
        c == prev_corner(zero_indexed_id as nat),
{
    let mut i = zero_indexed_id;
    while i > 0
        invariant
            i <= zero_indexed_id,
            (zero_indexed_id + 1) * 8 + 1 <= usize::MAX,
            prev_corner(zero_indexed_id as nat) == prev_corner(i as nat),
        decreases i,
    {
        i = i - 1;
        if is_tricorn(i) {
            return i;
        }
    }
    0
}


/// Step 0 is a triangle corner.
pub proof fn lemma_zero_is_corner()
    ensures
        is_triangle_corner(0),
{
    assert(1nat * (1nat + 1) == 2 * (0nat + 1));
}

/// `prev_corner(z)` is the latest triangle corner before `z`: no corner lies
/// strictly between the two.
pub proof fn lemma_prev_corner(z: nat)
    requires
        z >= 1,
    ensures
        prev_corner(z) < z,
        is_triangle_corner(prev_corner(z)),
        forall|j: nat| prev_corner(z) < j < z ==> !#[trigger] is_triangle_corner(j),
    decreases z,
{
    lemma_zero_is_corner();
    if z > 1 && !is_triangle_corner((z - 1) as nat) {
        lemma_prev_corner((z - 1) as nat);
    }
}

/// After the corner that closes row `k` comes the corner `k + 1` steps later.
pub proof fn lemma_next_corner(i: nat, k: nat)
    requires
        k * (k + 1) == 2 * (i + 1),
    ensures
        is_triangle_corner(i + k + 1),
{
    let k1: nat = k + 1;
    assert(k1 * (k1 + 1) == k * (k + 1) + 2 * k + 2) by (nonlinear_arith)
        requires k1 == k + 1;
    assert(k1 * (k1 + 1) == 2 * (i + k + 1 + 1));
}

} // verus!
