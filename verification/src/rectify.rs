//! The warp engine and the full rectification pipeline.

use vstd::prelude::*;

use crate::geometry::{
    bbox_of, canonical_order, canonical_order_spec, convex_position, quad_of_seq,
    validate_quadrilateral, validate_spec, BoundingBox, ControlPoint, Quad,
};
use crate::projection::{
    apply_rounded, is_rectifier_for, solve_projection, Projection, ENTRY_LIMIT,
};
use crate::raster::{crop, crop_pixel, transparent, transparent_pixel, Pixel, PixelBuffer};
use crate::SquareError;

verus! {

/// What the warp writes at destination pixel (dx, dy): the source pixel
/// nearest the inverse-mapped coordinate, or transparent black when that
/// coordinate falls outside the source buffer (or maps to infinity).
pub open spec fn warp_pixel(src: PixelBuffer, p: Projection, dx: int, dy: int) -> Pixel {
    match apply_rounded(p, dx, dy) {
        Some(pt) => if 0 <= pt.0 < src.width && 0 <= pt.1 < src.height {
            src.pixel_at(pt.0, pt.1)
        } else {
            transparent()
        },
        None => transparent(),
    }
}

/// A destination pixel whose inverse-mapped source coordinate rounds to a
/// point outside the source is always fully transparent.
pub proof fn lemma_outside_source_transparent(src: PixelBuffer, p: Projection, dx: int, dy: int)
    requires
        match apply_rounded(p, dx, dy) {
            Some(pt) => !(0 <= pt.0 < src.width && 0 <= pt.1 < src.height),
            None => true,
        },
    ensures
        warp_pixel(src, p, dx, dy) == transparent(),
{
}

/// For every destination pixel, applies the inverse transform to locate the
/// corresponding source pixel of the (cropped) source, samples it with
/// nearest-neighbour interpolation, or writes transparent black when it
/// falls outside; the output has the source's dimensions.
pub fn warp(src: &PixelBuffer, p: &Projection) -> (r: PixelBuffer)
    requires
        src.wf(),
        p.bounded(ENTRY_LIMIT as int),
    ensures
        r.wf(),
        r.width == src.width,
        r.height == src.height,
        forall|dx: int, dy: int|
            0 <= dx < src.width && 0 <= dy < src.height ==> #[trigger] r.pixel_at(dx, dy)
                == warp_pixel(*src, *p, dx, dy),
{
    let w = src.width;
    let h = src.height;
    let mut data: Vec<Pixel> = Vec::new();
    let mut y: usize = 0;
    while y < h
        invariant
            y <= h,
            w == src.width,
            h == src.height,
            src.wf(),
            p.bounded(ENTRY_LIMIT as int),
            data@.len() == y * w,
            forall|i: int, j: int|
                0 <= i < w && 0 <= j < y ==> #[trigger] data@[j * w + i] == warp_pixel(
                    *src,
                    *p,
                    i,
                    j,
                ),
        decreases h - y,
    {
        let mut x: usize = 0;
        while x < w
            invariant
                x <= w,
                y < h,
                w == src.width,
                h == src.height,
                src.wf(),
                p.bounded(ENTRY_LIMIT as int),
                data@.len() == y * w + x,
                forall|i: int, j: int|
                    0 <= i < w && 0 <= j < y ==> #[trigger] data@[j * w + i] == warp_pixel(
                        *src,
                        *p,
                        i,
                        j,
                    ),
                forall|i: int|
                    0 <= i < x ==> #[trigger] data@[y * w + i] == warp_pixel(
                        *src,
                        *p,
                        i,
                        y as int,
                    ),
            decreases w - x,
        {
            let px = match p.apply(x as i64, y as i64) {
                Some(pt) => {
                    let (rx, ry) = pt;
                    if 0 <= rx && rx < w as i128 && 0 <= ry && ry < h as i128 {
                        src.get(rx as usize, ry as usize)
                    } else {
                        transparent_pixel()
                    }
                },
                None => transparent_pixel(),
            };
            data.push(px);
            x = x + 1;
            proof {
                assert forall|i: int, j: int|
                    0 <= i < w && 0 <= j < y implies #[trigger] data@[j * w + i] == warp_pixel(
                    *src,
                    *p,
                    i,
                    j,
                ) by {
                    assert(j * w + i < y * w) by (nonlinear_arith)
                        requires
                            0 <= i < w,
                            0 <= j < y,
                    ;
                }
                assert forall|i: int| 0 <= i < x implies #[trigger] data@[y * w + i] == warp_pixel(
                    *src,
                    *p,
                    i,
                    y as int,
                ) by {
                    if i < x - 1 {
                    } else {
                        assert(data@[y * w + i] == px);
                    }
                }
            }
        }
        y = y + 1;
        proof {
            assert(data@.len() == y * w) by (nonlinear_arith)
                requires
                    data@.len() == (y - 1) * w + w,
            ;
            assert forall|i: int, j: int| 0 <= i < w && 0 <= j < y implies #[trigger] data@[j * w
                + i] == warp_pixel(*src, *p, i, j) by {
                if j < y - 1 {
                } else {
                }
            }
        }
    }
    proof {
        vstd::arithmetic::mul::lemma_mul_is_commutative(h as int, w as int);
    }
    PixelBuffer { width: w, height: h, data }
}

/// What the whole pipeline writes at destination pixel (dx, dy), given the
/// source raster, the bounding box and the rectifying transform.
pub open spec fn rectified_pixel(
    src: PixelBuffer,
    bb: BoundingBox,
    p: Projection,
    dx: int,
    dy: int,
) -> Pixel {
    match apply_rounded(p, dx, dy) {
        Some(pt) => if 0 <= pt.0 < bb.width() && 0 <= pt.1 < bb.height() {
            crop_pixel(src, bb, pt.0, pt.1)
        } else {
            transparent()
        },
        None => transparent(),
    }
}

/// The canonically ordered hull that the pipeline computes for this input,
/// when the input is accepted.
pub open spec fn pipeline_hull(points: Seq<ControlPoint>) -> Quad {
    canonical_order_spec(validate_spec(quad_of_seq(points)).unwrap())
}

/// Rectifies the quadrilateral region delineated by the four control points
/// onto an axis-aligned rectangle: validates the points, orders them
/// canonically, derives the projective transform in closed form, crops the
/// source to the bounding box and inverse-warps every output pixel.
///
/// Succeeds exactly on points in strictly convex position; the output always
/// has the bounding box's dimensions, and every output pixel is pinned by
/// `rectified_pixel`.
pub fn rectify(src: &PixelBuffer, points: &Vec<ControlPoint>) -> (r: Result<
    PixelBuffer,
    SquareError,
>)
    requires
        src.wf(),
        points@.len() == 4,
        forall|i: int| 0 <= i < 4 ==> (#[trigger] points@[i]).in_range(),
    ensures
        r is Ok <==> convex_position(quad_of_seq(points@)),
        match r {
            Ok(out) => {
                let hull = pipeline_hull(points@);
                let bb = bbox_of(hull);
                &&& out.wf()
                &&& out.width == bb.width()
                &&& out.height == bb.height()
                &&& exists|p: Projection|
                    {
                        &&& #[trigger] is_rectifier_for(p, hull, bb)
                        &&& p.bounded(ENTRY_LIMIT as int)
                        &&& forall|dx: int, dy: int|
                            0 <= dx < bb.width() && 0 <= dy < bb.height()
                                ==> #[trigger] out.pixel_at(dx, dy) == rectified_pixel(
                                *src,
                                bb,
                                p,
                                dx,
                                dy,
                            )
                    }
            },
            Err(e) => e == SquareError::InvalidQuadrilateral,
        },
{
    let hull = match validate_quadrilateral(points) {
        Ok(hq) => hq,
        Err(e) => {
            return Err(e);
        },
    };
    let ordered = canonical_order(hull);
    proof {
        crate::geometry::lemma_rearrangements(hull);
    }
    let bb = crate::geometry::bounding_box(&ordered);
    proof {
        crate::projection::lemma_solver_total_on_convex(ordered, bb);
        crate::geometry::lemma_convex_bbox_positive(ordered);
    }
    let proj = match solve_projection(&ordered, &bb) {
        Ok(p) => p,
        Err(_) => {
            proof {
                assert(false);
            }
            return Err(SquareError::DegenerateProjection);
        },
    };
    let cropped = crop(src, &bb);
    let out = warp(&cropped, &proj);
    proof {
        assert forall|dx: int, dy: int|
            0 <= dx < bb.width() && 0 <= dy < bb.height() implies #[trigger] out.pixel_at(dx, dy)
            == rectified_pixel(*src, bb, proj, dx, dy) by {
            assert(out.pixel_at(dx, dy) == warp_pixel(cropped, proj, dx, dy));
        }
    }
    Ok(out)
}

} // verus!
