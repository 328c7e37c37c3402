//! The projective transform between the destination rectangle and the source
//! quadrilateral, derived in closed form and represented exactly.
//!
//! A projective plane transform is a 3-by-3 matrix determined only up to
//! scale, so integer entries lose no generality: the closed-form solve over
//! the four corner correspondences is carried out with every denominator
//! cleared. The solver returns the rectifying transform, the one the warp
//! engine applies to each destination pixel to find its source coordinate;
//! it is the exact inverse of the "source to destination" mapping, whose
//! corners it reproduces exactly (`lemma_rectifier_maps_corners`).

use vstd::prelude::*;

use crate::arith::{lemma_div_of_decomposition, lemma_mul_bound};
use crate::geometry::{bbox_of, cross, is_convex_pos, BoundingBox, Quad};
use crate::SquareError;

verus! {

/// Every entry of a solved projection fits below this bound, which keeps the
/// per-pixel arithmetic of the warp inside 128 bits.
pub const ENTRY_LIMIT: i128 = 0x4000_0000_0000_0000_0000;

/// An invertible plane transform: a 3-by-3 projective matrix, exact up to
/// scale. Row one is (a, b, c), row two (d, e, f), row three (g, h, i).
/// The point (x, y) maps to ((a*x + b*y + c) / w, (d*x + e*y + f) / w) with
/// w = g*x + h*y + i.
#[derive(Clone, Copy, PartialEq, Eq, Structural, Debug)]
pub struct Projection {
    pub a: i128,
    pub b: i128,
    pub c: i128,
    pub d: i128,
    pub e: i128,
    pub f: i128,
    pub g: i128,
    pub h: i128,
    pub i: i128,
}

impl Projection {
    /// All entries lie within `l`.
    pub open spec fn bounded(self, l: int) -> bool {
        -l <= self.a <= l && -l <= self.b <= l && -l <= self.c <= l && -l <= self.d <= l && -l
            <= self.e <= l && -l <= self.f <= l && -l <= self.g <= l && -l <= self.h <= l && -l
            <= self.i <= l
    }
}

/// The numerator of the mapped x coordinate.
pub open spec fn apply_num_x(p: Projection, x: int, y: int) -> int {
    p.a * x + p.b * y + p.c
}

/// The numerator of the mapped y coordinate.
pub open spec fn apply_num_y(p: Projection, x: int, y: int) -> int {
    p.d * x + p.e * y + p.f
}

/// The shared projective denominator.
pub open spec fn apply_den(p: Projection, x: int, y: int) -> int {
    p.g * x + p.h * y + p.i
}

/// The image of (x, y) under the transform, each exact rational coordinate
/// rounded to its nearest integer (halves round up); nothing if (x, y) lies
/// on the line the transform sends to infinity.
pub open spec fn apply_rounded(p: Projection, x: int, y: int) -> Option<(int, int)> {
    let den = apply_den(p, x, y);
    if den == 0 {
        None
    } else {
        let dp = if den > 0 {
            den
        } else {
            -den
        };
        let nx = if den > 0 {
            apply_num_x(p, x, y)
        } else {
            -apply_num_x(p, x, y)
        };
        let ny = if den > 0 {
            apply_num_y(p, x, y)
        } else {
            -apply_num_y(p, x, y)
        };
        Some(((2 * nx + dp) / (2 * dp), (2 * ny + dp) / (2 * dp)))
    }
}

/// x coordinate of vertex k of the quadrilateral, relative to the crop
/// origin.
pub open spec fn local_x(q: Quad, bb: BoundingBox, k: int) -> int {
    if k == 0 {
        q.p0.x - bb.min_x
    } else if k == 1 {
        q.p1.x - bb.min_x
    } else if k == 2 {
        q.p2.x - bb.min_x
    } else {
        q.p3.x - bb.min_x
    }
}

/// y coordinate of vertex k of the quadrilateral, relative to the crop
/// origin.
pub open spec fn local_y(q: Quad, bb: BoundingBox, k: int) -> int {
    if k == 0 {
        q.p0.y - bb.min_y
    } else if k == 1 {
        q.p1.y - bb.min_y
    } else if k == 2 {
        q.p2.y - bb.min_y
    } else {
        q.p3.y - bb.min_y
    }
}

/// First numerator of the closed-form solve (the `g` entry before clearing
/// denominators).
pub open spec fn ng_of(q: Quad, bb: BoundingBox) -> int {
    let x1 = local_x(q, bb, 0);
    let y1 = local_y(q, bb, 0);
    let x2 = local_x(q, bb, 1);
    let y2 = local_y(q, bb, 1);
    let x3 = local_x(q, bb, 2);
    let y3 = local_y(q, bb, 2);
    let x4 = local_x(q, bb, 3);
    let y4 = local_y(q, bb, 3);
    x1 * y3 - x1 * y4 - x2 * y3 + x2 * y4 - x3 * y1 + x3 * y2 + x4 * y1 - x4 * y2
}

/// Second numerator of the closed-form solve (the `h` entry).
pub open spec fn nh_of(q: Quad, bb: BoundingBox) -> int {
    let x1 = local_x(q, bb, 0);
    let y1 = local_y(q, bb, 0);
    let x2 = local_x(q, bb, 1);
    let y2 = local_y(q, bb, 1);
    let x3 = local_x(q, bb, 2);
    let y3 = local_y(q, bb, 2);
    let x4 = local_x(q, bb, 3);
    let y4 = local_y(q, bb, 3);
    x1 * y2 - x1 * y3 - x2 * y1 + x2 * y4 + x3 * y1 - x3 * y4 - x4 * y2 + x4 * y3
}

/// The shared denominator of the closed-form solve.
pub open spec fn dd_of(q: Quad, bb: BoundingBox) -> int {
    let x2 = local_x(q, bb, 1);
    let y2 = local_y(q, bb, 1);
    let x3 = local_x(q, bb, 2);
    let y3 = local_y(q, bb, 2);
    let x4 = local_x(q, bb, 3);
    let y4 = local_y(q, bb, 3);
    x2 * y3 - x2 * y4 - x3 * y2 + x3 * y4 + x4 * y2 - x4 * y3
}

/// The closed-form solve succeeds: its denominator and the projective
/// denominators at the four rectangle corners are all non-zero.
pub open spec fn solvable(q: Quad, bb: BoundingBox) -> bool {
    let ng = ng_of(q, bb);
    let nh = nh_of(q, bb);
    let dd = dd_of(q, bb);
    dd != 0 && ng + dd != 0 && nh + dd != 0 && ng + nh + dd != 0
}

/// The rectifying transform for the ordered quadrilateral: the matrix that
/// maps destination-rectangle pixel coordinates to crop-local source
/// coordinates. It is the composition, with all denominators cleared, of the
/// scale-down to the unit square, the closed-form unit-square-to-normalized-
/// quadrilateral matrix, and the scale-up to crop pixels.
pub open spec fn is_rectifier_for(p: Projection, q: Quad, bb: BoundingBox) -> bool {
    let w = bb.width();
    let h = bb.height();
    let ng = ng_of(q, bb);
    let nh = nh_of(q, bb);
    let dd = dd_of(q, bb);
    let x1 = local_x(q, bb, 0);
    let y1 = local_y(q, bb, 0);
    let x2 = local_x(q, bb, 1);
    let y2 = local_y(q, bb, 1);
    let x4 = local_x(q, bb, 3);
    let y4 = local_y(q, bb, 3);
    p.a as int == (ng * x2 + dd * (x2 - x1)) * h && p.b as int == (nh * x4 + dd * (x4 - x1)) * w
        && p.c as int == x1 * dd * w * h && p.d as int == (ng * y2 + dd * (y2 - y1)) * h
        && p.e as int == (nh * y4 + dd * (y4 - y1)) * w && p.f as int == y1 * dd * w * h
        && p.g as int == ng * h && p.h as int == nh * w && p.i as int == dd * w * h
}

/// Derives the projective transform mapping destination pixels back to
/// crop-local source pixels, so that the four rectangle corners correspond
/// exactly to the four ordered quadrilateral corners. Fails with
/// `DegenerateProjection` when a denominator of the closed-form solve
/// vanishes; `lemma_solver_total_on_convex` shows that this never happens
/// for a validated quadrilateral.
pub fn solve_projection(q: &Quad, bb: &BoundingBox) -> (r: Result<Projection, SquareError>)
    requires
        q.in_range(),
        *bb == bbox_of(*q),
    ensures
        r is Ok <==> solvable(*q, *bb),
        match r {
            Ok(p) => is_rectifier_for(p, *q, *bb) && p.bounded(ENTRY_LIMIT as int),
            Err(e) => e == SquareError::DegenerateProjection,
        },
{
    let x1 = q.p0.x as i128 - bb.min_x as i128;
    let y1 = q.p0.y as i128 - bb.min_y as i128;
    let x2 = q.p1.x as i128 - bb.min_x as i128;
    let y2 = q.p1.y as i128 - bb.min_y as i128;
    let x3 = q.p2.x as i128 - bb.min_x as i128;
    let y3 = q.p2.y as i128 - bb.min_y as i128;
    let x4 = q.p3.x as i128 - bb.min_x as i128;
    let y4 = q.p3.y as i128 - bb.min_y as i128;
    let w = bb.max_x as i128 - bb.min_x as i128;
    let h = bb.max_y as i128 - bb.min_y as i128;
    proof {
        lemma_mul_bound(x1 as int, y3 as int, 0x8000, 0x8000);
        lemma_mul_bound(x1 as int, y4 as int, 0x8000, 0x8000);
        lemma_mul_bound(x2 as int, y3 as int, 0x8000, 0x8000);
        lemma_mul_bound(x2 as int, y4 as int, 0x8000, 0x8000);
        lemma_mul_bound(x3 as int, y1 as int, 0x8000, 0x8000);
        lemma_mul_bound(x3 as int, y2 as int, 0x8000, 0x8000);
        lemma_mul_bound(x4 as int, y1 as int, 0x8000, 0x8000);
        lemma_mul_bound(x4 as int, y2 as int, 0x8000, 0x8000);
        lemma_mul_bound(x1 as int, y2 as int, 0x8000, 0x8000);
        lemma_mul_bound(x2 as int, y1 as int, 0x8000, 0x8000);
        lemma_mul_bound(x3 as int, y4 as int, 0x8000, 0x8000);
        lemma_mul_bound(x4 as int, y3 as int, 0x8000, 0x8000);
    }
    let ng = x1 * y3 - x1 * y4 - x2 * y3 + x2 * y4 - x3 * y1 + x3 * y2 + x4 * y1 - x4 * y2;
    let nh = x1 * y2 - x1 * y3 - x2 * y1 + x2 * y4 + x3 * y1 - x3 * y4 - x4 * y2 + x4 * y3;
    let dd = x2 * y3 - x2 * y4 - x3 * y2 + x3 * y4 + x4 * y2 - x4 * y3;
    if dd == 0 || ng + dd == 0 || nh + dd == 0 || ng + nh + dd == 0 {
        return Err(SquareError::DegenerateProjection);
    }
    proof {
        lemma_mul_bound(ng as int, x2 as int, 0x2_0000_0000, 0x8000);
        lemma_mul_bound(dd as int, (x2 - x1) as int, 0x1_8000_0000, 0x8000);
        lemma_mul_bound(nh as int, x4 as int, 0x2_0000_0000, 0x8000);
        lemma_mul_bound(dd as int, (x4 - x1) as int, 0x1_8000_0000, 0x8000);
        lemma_mul_bound(ng as int, y2 as int, 0x2_0000_0000, 0x8000);
        lemma_mul_bound(dd as int, (y2 - y1) as int, 0x1_8000_0000, 0x8000);
        lemma_mul_bound(nh as int, y4 as int, 0x2_0000_0000, 0x8000);
        lemma_mul_bound(dd as int, (y4 - y1) as int, 0x1_8000_0000, 0x8000);
        lemma_mul_bound(x1 as int, dd as int, 0x8000, 0x1_8000_0000);
        lemma_mul_bound(y1 as int, dd as int, 0x8000, 0x1_8000_0000);
        lemma_mul_bound(ng as int, h as int, 0x2_0000_0000, 0x8000);
        lemma_mul_bound(nh as int, w as int, 0x2_0000_0000, 0x8000);
        lemma_mul_bound(dd as int, w as int, 0x1_8000_0000, 0x8000);
    }
    let ta = ng * x2 + dd * (x2 - x1);
    let tb = nh * x4 + dd * (x4 - x1);
    let td = ng * y2 + dd * (y2 - y1);
    let te = nh * y4 + dd * (y4 - y1);
    let tc = x1 * dd;
    let tf = y1 * dd;
    let ti = dd * w;
    proof {
        lemma_mul_bound(ta as int, h as int, 0x2_0000_0000_0000, 0x8000);
        lemma_mul_bound(tb as int, w as int, 0x2_0000_0000_0000, 0x8000);
        lemma_mul_bound(td as int, h as int, 0x2_0000_0000_0000, 0x8000);
        lemma_mul_bound(te as int, w as int, 0x2_0000_0000_0000, 0x8000);
        lemma_mul_bound(tc as int, w as int, 0xC000_0000_0000, 0x8000);
        lemma_mul_bound(tf as int, w as int, 0xC000_0000_0000, 0x8000);
        lemma_mul_bound((tc * w) as int, h as int, 0x6000_0000_0000_0000, 0x8000);
        lemma_mul_bound((tf * w) as int, h as int, 0x6000_0000_0000_0000, 0x8000);
        lemma_mul_bound(ti as int, h as int, 0xC000_0000_0000, 0x8000);
    }
    Ok(
        Projection {
            a: ta * h,
            b: tb * w,
            c: tc * w * h,
            d: td * h,
            e: te * w,
            f: tf * w * h,
            g: ng * h,
            h: nh * w,
            i: ti * h,
        },
    )
}

/// Floor division for signed 128-bit values with a positive divisor.
fn div_floor(a: i128, b: i128) -> (r: i128)
    requires
        b > 0,
        -0x1000_0000_0000_0000_0000_0000_0000 <= a <= 0x1000_0000_0000_0000_0000_0000_0000,
    ensures
        r as int == a as int / b as int,
{
    if a >= 0 {
        ((a as u128) / (b as u128)) as i128
    } else {
        let p = (-a) as u128;
        let bu = b as u128;
        let qq = p / bu;
        let rr = p % bu;
        proof {
            vstd::arithmetic::div_mod::lemma_fundamental_div_mod(p as int, bu as int);
        }
        if rr == 0 {
            proof {
                assert(a as int == (-(qq as int)) * (b as int) + 0) by (nonlinear_arith)
                    requires
                        p as int == (bu as int) * (qq as int),
                        a as int == -(p as int),
                        bu as int == b as int,
                ;
                lemma_div_of_decomposition(a as int, b as int, -(qq as int), 0);
            }
            -(qq as i128)
        } else {
            proof {
                assert(a as int == (-(qq as int) - 1) * (b as int) + (b as int - rr as int))
                    by (nonlinear_arith)
                    requires
                        p as int == (bu as int) * (qq as int) + rr as int,
                        a as int == -(p as int),
                        bu as int == b as int,
                ;
                lemma_div_of_decomposition(
                    a as int,
                    b as int,
                    -(qq as int) - 1,
                    b as int - rr as int,
                );
            }
            -(qq as i128) - 1
        }
    }
}

impl Projection {
    /// Maps a point through the transform, rounding each exact rational
    /// coordinate to the nearest integer; nothing when the point lies on the
    /// line sent to infinity.
    pub fn apply(&self, x: i64, y: i64) -> (r: Option<(i128, i128)>)
        requires
            self.bounded(ENTRY_LIMIT as int),
            -0x10000 <= x <= 0x10000,
            -0x10000 <= y <= 0x10000,
        ensures
            match r {
                Some(pt) => apply_rounded(*self, x as int, y as int) == Some(
                    (pt.0 as int, pt.1 as int),
                ),
                None => apply_rounded(*self, x as int, y as int) is None,
            },
    {
        let xi = x as i128;
        let yi = y as i128;
        proof {
            lemma_mul_bound(self.g as int, xi as int, ENTRY_LIMIT as int, 0x10000);
            lemma_mul_bound(self.h as int, yi as int, ENTRY_LIMIT as int, 0x10000);
            lemma_mul_bound(self.a as int, xi as int, ENTRY_LIMIT as int, 0x10000);
            lemma_mul_bound(self.b as int, yi as int, ENTRY_LIMIT as int, 0x10000);
            lemma_mul_bound(self.d as int, xi as int, ENTRY_LIMIT as int, 0x10000);
            lemma_mul_bound(self.e as int, yi as int, ENTRY_LIMIT as int, 0x10000);
        }
        let den = self.g * xi + self.h * yi + self.i;
        if den == 0 {
            return None;
        }
        let nx = self.a * xi + self.b * yi + self.c;
        let ny = self.d * xi + self.e * yi + self.f;
        let (nx2, ny2, dp) = if den > 0 {
            (nx, ny, den)
        } else {
            (-nx, -ny, -den)
        };
        let rx = div_floor(2 * nx2 + dp, 2 * dp);
        let ry = div_floor(2 * ny2 + dp, 2 * dp);
        Some((rx, ry))
    }
}

/// The denominators of the closed-form solve are cross products of the
/// quadrilateral's vertices: the shared denominator comes from vertices
/// 1, 2, 3, and the three corner denominators from the other vertex
/// triples.
proof fn lemma_denominators_are_crosses(q: Quad, bb: BoundingBox)
    ensures
        dd_of(q, bb) == cross(q.p1, q.p2, q.p3),
        ng_of(q, bb) + dd_of(q, bb) == cross(q.p0, q.p2, q.p3),
        nh_of(q, bb) + dd_of(q, bb) == cross(q.p0, q.p1, q.p2),
        ng_of(q, bb) + nh_of(q, bb) + dd_of(q, bb) == cross(q.p0, q.p1, q.p3),
{
    let mx = bb.min_x as int;
    let my = bb.min_y as int;
    let x1 = local_x(q, bb, 0);
    let y1 = local_y(q, bb, 0);
    let x2 = local_x(q, bb, 1);
    let y2 = local_y(q, bb, 1);
    let x3 = local_x(q, bb, 2);
    let y3 = local_y(q, bb, 2);
    let x4 = local_x(q, bb, 3);
    let y4 = local_y(q, bb, 3);
    assert(x2 * y3 - x2 * y4 - x3 * y2 + x3 * y4 + x4 * y2 - x4 * y3 == (q.p2.x - q.p1.x) * (
    q.p3.y - q.p1.y) - (q.p2.y - q.p1.y) * (q.p3.x - q.p1.x)) by (nonlinear_arith)
        requires
            x2 == q.p1.x - mx,
            y2 == q.p1.y - my,
            x3 == q.p2.x - mx,
            y3 == q.p2.y - my,
            x4 == q.p3.x - mx,
            y4 == q.p3.y - my,
    ;
    assert((x1 * y3 - x1 * y4 - x2 * y3 + x2 * y4 - x3 * y1 + x3 * y2 + x4 * y1 - x4 * y2) + (x2
        * y3 - x2 * y4 - x3 * y2 + x3 * y4 + x4 * y2 - x4 * y3) == (q.p2.x - q.p0.x) * (q.p3.y
        - q.p0.y) - (q.p2.y - q.p0.y) * (q.p3.x - q.p0.x)) by (nonlinear_arith)
        requires
            x1 == q.p0.x - mx,
            y1 == q.p0.y - my,
            x2 == q.p1.x - mx,
            y2 == q.p1.y - my,
            x3 == q.p2.x - mx,
            y3 == q.p2.y - my,
            x4 == q.p3.x - mx,
            y4 == q.p3.y - my,
    ;
    assert((x1 * y2 - x1 * y3 - x2 * y1 + x2 * y4 + x3 * y1 - x3 * y4 - x4 * y2 + x4 * y3) + (x2
        * y3 - x2 * y4 - x3 * y2 + x3 * y4 + x4 * y2 - x4 * y3) == (q.p1.x - q.p0.x) * (q.p2.y
        - q.p0.y) - (q.p1.y - q.p0.y) * (q.p2.x - q.p0.x)) by (nonlinear_arith)
        requires
            x1 == q.p0.x - mx,
            y1 == q.p0.y - my,
            x2 == q.p1.x - mx,
            y2 == q.p1.y - my,
            x3 == q.p2.x - mx,
            y3 == q.p2.y - my,
            x4 == q.p3.x - mx,
            y4 == q.p3.y - my,
    ;
    assert((x1 * y3 - x1 * y4 - x2 * y3 + x2 * y4 - x3 * y1 + x3 * y2 + x4 * y1 - x4 * y2) + (x1
        * y2 - x1 * y3 - x2 * y1 + x2 * y4 + x3 * y1 - x3 * y4 - x4 * y2 + x4 * y3) + (x2 * y3
        - x2 * y4 - x3 * y2 + x3 * y4 + x4 * y2 - x4 * y3) == (q.p1.x - q.p0.x) * (q.p3.y
        - q.p0.y) - (q.p1.y - q.p0.y) * (q.p3.x - q.p0.x)) by (nonlinear_arith)
        requires
            x1 == q.p0.x - mx,
            y1 == q.p0.y - my,
            x2 == q.p1.x - mx,
            y2 == q.p1.y - my,
            x3 == q.p2.x - mx,
            y3 == q.p2.y - my,
            x4 == q.p3.x - mx,
            y4 == q.p3.y - my,
    ;
}

/// For a validated (strictly convex, clockwise) quadrilateral the closed-form
/// solve never degenerates: its denominator and the three corner denominators
/// are cross products of hull vertices and therefore strictly positive.
pub proof fn lemma_solver_total_on_convex(q: Quad, bb: BoundingBox)
    requires
        is_convex_pos(q),
        bb == bbox_of(q),
    ensures
        solvable(q, bb),
        dd_of(q, bb) > 0,
        ng_of(q, bb) + dd_of(q, bb) > 0,
        nh_of(q, bb) + dd_of(q, bb) > 0,
        ng_of(q, bb) + nh_of(q, bb) + dd_of(q, bb) > 0,
{
    lemma_denominators_are_crosses(q, bb);
    crate::geometry::lemma_cross_shift(q.p2, q.p3, q.p0);
    crate::geometry::lemma_cross_shift(q.p0, q.p2, q.p3);
    crate::geometry::lemma_cross_shift(q.p3, q.p0, q.p1);
    crate::geometry::lemma_cross_shift(q.p0, q.p1, q.p3);
}

} // verus!
