//! Fixed-point 2D vectors and the integer arithmetic helpers the simulation
//! rules are written with.
//!
//! Executable vectors hold `i64` components in thousandths of a world unit.
//! Contracts speak about `V2`, the same pair with unbounded integer
//! components, so every rule is stated in exact mathematical arithmetic.
use vstd::prelude::*;

verus! {

/// A 2D vector in ghost code: unbounded integer components.
pub struct V2 {
    pub x: int,
    pub y: int,
}

/// An executable 2D vector; components are thousandths of a world unit.
#[derive(Clone, Copy, PartialEq, Eq, Structural, Debug)]
pub struct Vec2 {
    pub x: i64,
    pub y: i64,
}

impl Vec2 {
    /// The mathematical value of this vector.
    pub open spec fn v(self) -> V2 {
        V2 { x: self.x as int, y: self.y as int }
    }

    pub fn new(x: i64, y: i64) -> (r: Vec2)
        ensures
            r.v() == (V2 { x: x as int, y: y as int }),
    {
        Vec2 { x, y }
    }
}

pub open spec fn zero2() -> V2 {
    V2 { x: 0, y: 0 }
}

/// The mathematical values of a sequence of executable vectors.
pub open spec fn views_of(s: Seq<Vec2>) -> Seq<V2> {
    s.map_values(|p: Vec2| p.v())
}

pub open spec fn add2(a: V2, b: V2) -> V2 {
    V2 { x: a.x + b.x, y: a.y + b.y }
}

pub open spec fn sub2(a: V2, b: V2) -> V2 {
    V2 { x: a.x - b.x, y: a.y - b.y }
}

/// Division that rounds toward zero, the rounding the executable helpers use.
pub open spec fn trunc_div(a: int, d: int) -> int {
    if a >= 0 {
        a / d
    } else {
        -((-a) / d)
    }
}

/// Multiply by the fraction `k / d`, rounding toward zero.
pub open spec fn scale2(v: V2, k: int, d: int) -> V2 {
    V2 { x: trunc_div(v.x * k, d), y: trunc_div(v.y * k, d) }
}

/// Divide both components by `d`, rounding toward zero.
pub open spec fn div2(v: V2, d: int) -> V2 {
    V2 { x: trunc_div(v.x, d), y: trunc_div(v.y, d) }
}

pub open spec fn norm_sq(v: V2) -> int {
    v.x * v.x + v.y * v.y
}

pub open spec fn dist_sq2(a: V2, b: V2) -> int {
    norm_sq(sub2(a, b))
}

/// Absolute bound on a single component.
pub open spec fn comp_bounded(v: V2, b: int) -> bool {
    -b <= v.x <= b && -b <= v.y <= b
}

/// `a * k / d`, with the division rounding toward zero as the contract's
/// `trunc_div` does.
pub fn scale_div(a: i64, k: i64, d: i64) -> (r: i64)
    requires
        d > 0,
        -0x7fff_ffff_ffff_ffff <= a * k <= 0x7fff_ffff_ffff_ffff,
    ensures
        r == trunc_div(a * k, d as int),
{
    let p: i64 = a * k;
    if p >= 0 {
        let q: u64 = (p as u64) / (d as u64);
        q as i64
    } else {
        let q: u64 = ((-p) as u64) / (d as u64);
        assert(q == (-(p as int)) / (d as int));
        assert(q <= -(p as int)) by {
            vstd::arithmetic::div_mod::lemma_div_nonincreasing(-(p as int), d as int);
        }
        -(q as i64)
    }
}

/// A quotient `a / d` rounded toward zero stays within `b` whenever the
/// numerator stays within `b * d`.
pub proof fn lemma_trunc_div_bound(a: int, d: int, b: int)
    requires
        d > 0,
        0 <= b,
        -(b * d) <= a <= b * d,
    ensures
        -b <= trunc_div(a, d) <= b,
{
    if a >= 0 {
        assert(trunc_div(a, d) == a / d);
        vstd::arithmetic::div_mod::lemma_div_pos_is_pos(a, d);
        vstd::arithmetic::div_mod::lemma_div_is_ordered(a, b * d, d);
        vstd::arithmetic::div_mod::lemma_div_multiples_vanish(b, d);
        assert((d * b) / d == b);
        assert(a / d <= (b * d) / d);
        assert(b * d == d * b) by (nonlinear_arith);
        assert(a / d <= b);
    } else {
        assert(trunc_div(a, d) == -((-a) / d));
        vstd::arithmetic::div_mod::lemma_div_pos_is_pos(-a, d);
        vstd::arithmetic::div_mod::lemma_div_is_ordered(-a, b * d, d);
        vstd::arithmetic::div_mod::lemma_div_multiples_vanish(b, d);
        assert((d * b) / d == b);
        assert((-a) / d <= (b * d) / d);
        assert(b * d == d * b) by (nonlinear_arith);
        assert((-a) / d <= b);
    }
}

/// Multiplying a nonnegative quotient back by the divisor cannot exceed the
/// numerator.
pub proof fn lemma_div_mul_le(p: int, d: int)
    requires
        p >= 0,
        d > 0,
    ensures
        0 <= p / d,
        (p / d) * d <= p,
{
    vstd::arithmetic::div_mod::lemma_div_pos_is_pos(p, d);
    assert((p / d) * d <= p) by (nonlinear_arith)
        requires
            p >= 0,
            d > 0,
    ;
}

/// Rounding toward zero commutes with negating the numerator.
pub proof fn lemma_trunc_div_neg(a: int, d: int)
    requires
        d > 0,
    ensures
        trunc_div(-a, d) == -trunc_div(a, d),
{
    if a == 0 {
        assert(-0int == 0int);
    }
}

/// Square bound: a value between `-b` and `b` has a square between 0 and `b * b`.
pub proof fn lemma_sq_bound(a: int, b: int)
    requires
        -b <= a <= b,
        0 <= b,
    ensures
        0 <= a * a <= b * b,
{
    assert(0 <= a * a <= b * b) by (nonlinear_arith)
        requires
            -b <= a <= b,
            0 <= b,
    ;
}

/// The integer square root, defined by counting up.
pub open spec fn isqrt_spec(n: nat) -> nat
    decreases n,
{
    if n == 0 {
        0
    } else {
        let r = isqrt_spec((n - 1) as nat);
        if (r + 1) * (r + 1) <= n {
            r + 1
        } else {
            r
        }
    }
}

/// `isqrt_spec(n)` is the unique natural `r` with `r * r <= n < (r + 1) * (r + 1)`.
pub proof fn lemma_isqrt_bounds(n: nat)
    ensures
        isqrt_spec(n) * isqrt_spec(n) <= n,
        n < (isqrt_spec(n) + 1) * (isqrt_spec(n) + 1),
    decreases n,
{
    if n > 0 {
        lemma_isqrt_bounds((n - 1) as nat);
        let r = isqrt_spec((n - 1) as nat);
        assert(r * r <= n - 1);
        assert(n - 1 < (r + 1) * (r + 1));
        if (r + 1) * (r + 1) <= n {
            assert(isqrt_spec(n) == r + 1);
            assert((r + 1) * (r + 1) < (r + 2) * (r + 2)) by (nonlinear_arith)
                requires
                    r >= 0,
            ;
            assert(isqrt_spec(n) * isqrt_spec(n) <= n);
            assert(n < (isqrt_spec(n) + 1) * (isqrt_spec(n) + 1));
        } else {
            assert(isqrt_spec(n) == r);
            assert(isqrt_spec(n) * isqrt_spec(n) <= n);
            assert(n < (isqrt_spec(n) + 1) * (isqrt_spec(n) + 1));
        }
    } else {
        let s = isqrt_spec(n);
        assert(s == 0);
        assert((s + 1) * (s + 1) == 1) by (nonlinear_arith)
            requires
                s == 0,
        ;
    }
}

/// Any natural in the square-root window is the square root.
pub proof fn lemma_isqrt_unique(n: nat, r: nat)
    requires
        r * r <= n,
        n < (r + 1) * (r + 1),
    ensures
        r == isqrt_spec(n),
{
    let s = isqrt_spec(n);
    lemma_isqrt_bounds(n);
    if r < s {
        assert((r + 1) * (r + 1) <= s * s) by (nonlinear_arith)
            requires
                r + 1 <= s,
                r >= 0,
        ;
    }
    if s < r {
        assert((s + 1) * (s + 1) <= r * r) by (nonlinear_arith)
            requires
                s + 1 <= r,
                s >= 0,
        ;
    }
}

/// Executable integer square root by bisection.
pub fn isqrt(n: u64) -> (r: u64)
    requires
        n <= 0x7fff_ffff_ffff_ffff,
    ensures
        r == isqrt_spec(n as nat),
        r * r <= n,
        n < (r + 1) * (r + 1),
        r <= 3_037_000_499,
{
    let mut lo: u64 = 0;
    let mut hi: u64 = 3_037_000_499;
    proof {
        assert((3_037_000_499u64 + 1) * (3_037_000_499u64 + 1) > 0x7fff_ffff_ffff_ffffu64)
            by (nonlinear_arith);
    }
    while lo < hi
        invariant
            lo <= hi <= 3_037_000_499,
            lo * lo <= n,
            n < (hi + 1) * (hi + 1),
        decreases hi - lo,
    {
        let mid: u64 = lo + (hi - lo + 1) / 2;
        proof {
            lemma_sq_bound(mid as int, 3_037_000_499int);
            assert(3_037_000_499int * 3_037_000_499int <= u64::MAX) by (nonlinear_arith);
        }
        if mid * mid <= n {
            lo = mid;
        } else {
            hi = mid - 1;
        }
    }
    proof {
        lemma_isqrt_unique(n as nat, lo as nat);
    }
    lo
}

} // verus!
