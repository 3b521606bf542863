//! Axis-aligned integer geometry: points, rectangles, overlap tests and an
//! integer square root. Rectangles are anchored at their top-left corner and
//! carry unsigned dimensions; the y axis grows downward, as on a canvas.

use vstd::prelude::*;

verus! {

/// Bound on the magnitude of any coordinate a caller hands the simulation
/// (waypoints, rectangle anchors, signal positions).
pub const COORD_LIMIT: i64 = 1_000_000;

/// Bound on any rectangle dimension a caller hands the simulation.
pub const DIM_LIMIT: u32 = 10_000;

/// Bound that every rectangle stored by the simulation respects, with room
/// for the forward projection of detection zones beyond `COORD_LIMIT`.
pub const RECT_LIMIT: i64 = 2_000_000;

#[derive(Clone, Copy, Debug, PartialEq, Eq, Structural)]
pub struct Point {
    pub x: i64,
    pub y: i64,
}

#[derive(Clone, Copy, Debug, PartialEq, Eq, Structural)]
pub struct Rect {
    pub x: i64,
    pub y: i64,
    pub w: u32,
    pub h: u32,
}

/// The point lies within `b` of the origin on both axes.
pub open spec fn point_bounded(p: Point, b: int) -> bool {
    -b <= p.x <= b && -b <= p.y <= b
}

/// The rectangle's anchor lies within `b` of the origin and its dimensions
/// are at most `b`.
pub open spec fn rect_bounded(r: Rect, b: int) -> bool {
    -b <= r.x <= b && -b <= r.y <= b && r.w <= b && r.h <= b
}

/// The rectangle whose center is `c` and whose dimensions are `w` by `h`;
/// with odd dimensions the center is rounded toward the top-left, as the
/// anchor is `c` minus half of each dimension rounded down.
pub open spec fn from_center_spec(c: Point, w: u32, h: u32) -> Rect {
    Rect { x: (c.x - w / 2) as i64, y: (c.y - h / 2) as i64, w, h }
}

/// The center of `r`, rounded toward the bottom-right for odd dimensions.
pub open spec fn center_spec(r: Rect) -> Point {
    Point { x: (r.x + r.w / 2) as i64, y: (r.y + r.h / 2) as i64 }
}

/// The interiors of the two rectangles share a point: each one's left edge
/// lies strictly left of the other's right edge, and likewise vertically.
/// A rectangle with a zero dimension overlaps nothing.
pub open spec fn overlaps_spec(a: Rect, b: Rect) -> bool {
    &&& a.x < b.x + b.w
    &&& b.x < a.x + a.w
    &&& a.y < b.y + b.h
    &&& b.y < a.y + a.h
}

pub proof fn lemma_overlaps_symmetric(a: Rect, b: Rect)
    ensures
        overlaps_spec(a, b) == overlaps_spec(b, a),
{
}

impl Rect {
    pub fn from_center(c: Point, w: u32, h: u32) -> (r: Rect)
        requires
            point_bounded(c, 2 * RECT_LIMIT),
        ensures
            r == from_center_spec(c, w, h),
    {
        Rect { x: c.x - (w / 2) as i64, y: c.y - (h / 2) as i64, w, h }
    }

    pub fn center(&self) -> (p: Point)
        requires
            rect_bounded(*self, 2 * RECT_LIMIT),
        ensures
            p == center_spec(*self),
    {
        Point { x: self.x + (self.w / 2) as i64, y: self.y + (self.h / 2) as i64 }
    }

    pub fn overlaps(&self, other: &Rect) -> (r: bool)
        requires
            rect_bounded(*self, 2 * RECT_LIMIT),
            rect_bounded(*other, 2 * RECT_LIMIT),
        ensures
            r == overlaps_spec(*self, *other),
    {
        self.x < other.x + other.w as i64 && other.x < self.x + self.w as i64
            && self.y < other.y + other.h as i64 && other.y < self.y + self.h as i64
    }
}

/// The square root of `n` rounded down, defined by counting up from zero.
pub open spec fn sqrt_floor(n: nat) -> nat
    decreases n,
{
    if n == 0 {
        0
    } else {
        let r = sqrt_floor((n - 1) as nat);
        if (r + 1) * (r + 1) <= n {
            r + 1
        } else {
            r
        }
    }
}

/// `sqrt_floor(n)` is the largest integer whose square is at most `n`.
pub proof fn lemma_sqrt_floor(n: nat)
    ensures
        sqrt_floor(n) * sqrt_floor(n) <= n,
        n < (sqrt_floor(n) + 1) * (sqrt_floor(n) + 1),
    decreases n,
{
    if n == 0 {
        let s = sqrt_floor(n);
        assert(n < (s + 1) * (s + 1)) by (nonlinear_arith)
            requires
                s == 0,
                n == 0,
        ;
    } else {
        lemma_sqrt_floor((n - 1) as nat);
        let r = sqrt_floor((n - 1) as nat);
        if (r + 1) * (r + 1) <= n {
            // then n is exactly the next square, and below the one after it
            assert(sqrt_floor(n) == r + 1);
            assert((r + 1) * (r + 1) < (r + 2) * (r + 2)) by (nonlinear_arith);
        } else {
            assert(sqrt_floor(n) == r);
        }
    }
}

/// Any integer bracketing `n` between its own square and the next square
/// is the rounded-down square root of `n`.
pub proof fn lemma_sqrt_unique(n: nat, r: nat)
    requires
        r * r <= n,
        n < (r + 1) * (r + 1),
    ensures
        r == sqrt_floor(n),
{
    lemma_sqrt_floor(n);
    let s = sqrt_floor(n);
    if r < s {
        assert((r + 1) * (r + 1) <= s * s) by (nonlinear_arith)
            requires
                r + 1 <= s,
        ;
    }
    if s < r {
        assert((s + 1) * (s + 1) <= r * r) by (nonlinear_arith)
            requires
                s + 1 <= r,
        ;
    }
}

/// The square root of `n` rounded down, computed by counting up from zero.
pub fn isqrt(n: u64) -> (r: u64)
    requires
        n <= 0x1000_0000_0000_0000,
    ensures
        r == sqrt_floor(n as nat),
{
    let mut r: u64 = 0;
    loop
        invariant
            n <= 0x1000_0000_0000_0000,
            r * r <= n,
        ensures
            r * r <= n < (r + 1) * (r + 1),
        decreases n - r,
    {
        proof {
            assert(r <= 0x4000_0000) by (nonlinear_arith)
                requires
                    r * r <= 0x1000_0000_0000_0000,
            ;
            assert((r + 1) * (r + 1) <= 0x4000_0001u64 * 0x4000_0001u64) by (nonlinear_arith)
                requires
                    r <= 0x4000_0000,
            ;
        }
        if (r + 1) * (r + 1) > n {
            break;
        }
        proof {
            assert(r + 1 <= (r + 1) * (r + 1)) by (nonlinear_arith);
        }
        r = r + 1;
    }
    proof {
        lemma_sqrt_unique(n as nat, r as nat);
    }
    r
}

} // verus!
