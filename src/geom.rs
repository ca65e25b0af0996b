//! Normalized screen space.
//!
//! Positions and sizes are fixed-point integers where `UNIT` stands for 1.0.
//! The viewport is centered on the origin, spans `[-UNIT, UNIT]` vertically
//! (y grows downwards) and `[-a, a]` horizontally, `a` being the aspect ratio.
use vstd::prelude::*;

verus! {

/// The fixed-point value of 1.0.
pub const UNIT: i64 = 1000000;

/// A point of normalized screen space.
#[derive(Clone, Copy, Debug, PartialEq, Eq, Structural)]
pub struct Point {
    pub x: i64,
    pub y: i64,
}

/// An axis-aligned rectangle: its top-left corner and its size.
/// It holds the points of `[x, x + w) × [y, y + h)`.
#[derive(Clone, Copy, Debug, PartialEq, Eq, Structural)]
pub struct Rect {
    pub x: i64,
    pub y: i64,
    pub w: i64,
    pub h: i64,
}

/// Division of integers rounded towards zero.
pub open spec fn div_toward_zero(n: int, d: int) -> int {
    if n >= 0 {
        n / d
    } else {
        -((-n) / d)
    }
}

pub open spec fn spec_aspect_ratio(w: int, h: int) -> int {
    w * UNIT / h
}

/// Where the window pixel `(x, y)` of a `w × h` window lies in screen space.
pub open spec fn spec_window_to_screen(x: int, y: int, w: int, h: int) -> (int, int) {
    (div_toward_zero((2 * x - w) * UNIT, h), div_toward_zero((2 * y - h) * UNIT, h))
}

impl Point {
    pub fn new(x: i64, y: i64) -> (r: Point)
        ensures
            r.x == x,
            r.y == y,
    {
        Point { x, y }
    }
}

impl Rect {
    pub open spec fn spec_contains(self, p: Point) -> bool {
        self.x <= p.x < self.x + self.w && self.y <= p.y < self.y + self.h
    }

    pub fn new(x: i64, y: i64, w: i64, h: i64) -> (r: Rect)
        ensures
            r == (Rect { x, y, w, h }),
    {
        Rect { x, y, w, h }
    }

    /// Whether `p` lies inside the rectangle.
    pub fn contains(&self, p: Point) -> (r: bool)
        ensures
            r == self.spec_contains(p),
    {
        let right = self.x as i128 + self.w as i128;
        let bottom = self.y as i128 + self.h as i128;
        self.x <= p.x && (p.x as i128) < right && self.y <= p.y && (p.y as i128) < bottom
    }
}

/// `numerator / denominator` rounded towards zero, for a positive denominator.
fn quotient_toward_zero(numerator: i128, denominator: i128) -> (r: i128)
    requires
        denominator > 0,
        -0x1_0000_0000_0000_0000_0000 < numerator < 0x1_0000_0000_0000_0000_0000,
    ensures
        r == div_toward_zero(numerator as int, denominator as int),
{
    if numerator >= 0 {
        numerator / denominator
    } else {
        let q = (-numerator) / denominator;
        -q
    }
}

/// The aspect ratio `w / h` of a `w × h` window, in fixed point.
pub fn aspect_ratio(w: u32, h: u32) -> (r: i64)
    requires
        h > 0,
    ensures
        r == spec_aspect_ratio(w as int, h as int),
{
    let n = w as i128 * UNIT as i128;
    assert(0 <= n <= 0xffff_ffff * 1000000) by (nonlinear_arith)
        requires
            n == w as int * 1000000,
            w <= 0xffff_ffff,
    ;
    let q = n / (h as i128);
    assert(q <= n) by (nonlinear_arith)
        requires
            q == n as int / (h as int),
            n >= 0,
            h >= 1,
    ;
    q as i64
}

/// Maps the window pixel `(x, y)` of a `w × h` window to screen space.
///
/// The horizontal extent follows the aspect ratio: `(2x - w) / h`, and the
/// vertical one is `(2y - h) / h`, both rounded towards zero.
pub fn window_to_screen(x: u32, y: u32, w: u32, h: u32) -> (r: Point)
    requires
        h > 0,
    ensures
        (r.x as int, r.y as int) == spec_window_to_screen(x as int, y as int, w as int, h as int),
{
    let nx = (2 * x as i128 - w as i128) * UNIT as i128;
    let ny = (2 * y as i128 - h as i128) * UNIT as i128;
    assert(-0x1_0000_0000 * 1000000 <= nx <= 0x2_0000_0000 * 1000000) by (nonlinear_arith)
        requires
            nx == (2 * x - w) * 1000000,
            0 <= x <= 0xffff_ffff,
            0 <= w <= 0xffff_ffff,
    ;
    assert(-0x1_0000_0000 * 1000000 <= ny <= 0x2_0000_0000 * 1000000) by (nonlinear_arith)
        requires
            ny == (2 * y - h) * 1000000,
            0 <= y <= 0xffff_ffff,
            0 <= h <= 0xffff_ffff,
    ;
    let qx = quotient_toward_zero(nx, h as i128);
    let qy = quotient_toward_zero(ny, h as i128);
    assert(-0x1_0000_0000 * 1000000 <= qx <= 0x2_0000_0000 * 1000000) by (nonlinear_arith)
        requires
            qx == div_toward_zero(nx as int, h as int),
            -0x1_0000_0000 * 1000000 <= nx <= 0x2_0000_0000 * 1000000,
            h >= 1,
    {
        if nx >= 0 {
            assert(nx as int / (h as int) <= nx);
        } else {
            assert((-nx) as int / (h as int) <= -nx);
        }
    }
    assert(-0x1_0000_0000 * 1000000 <= qy <= 0x2_0000_0000 * 1000000) by (nonlinear_arith)
        requires
            qy == div_toward_zero(ny as int, h as int),
            -0x1_0000_0000 * 1000000 <= ny <= 0x2_0000_0000 * 1000000,
            h >= 1,
    {
        if ny >= 0 {
            assert(ny as int / (h as int) <= ny);
        } else {
            assert((-ny) as int / (h as int) <= -ny);
        }
    }
    Point { x: qx as i64, y: qy as i64 }
}

/// The pixel at the exact center of a window maps to the origin of screen
/// space, whatever the window's aspect ratio.
pub proof fn lemma_window_center_is_origin(w: int, h: int)
    requires
        h > 0,
        w >= 0,
        w % 2 == 0,
        h % 2 == 0,
    ensures
        spec_window_to_screen(w / 2, h / 2, w, h) == (0int, 0int),
{
    assert(2 * (w / 2) - w == 0);
    assert(2 * (h / 2) - h == 0);
}

} // verus!
