//! The geometry of the quadrilateral: control points, the convexity
//! validator, the canonical ordering rule and the bounding box.
//!
//! All reasoning is exact integer arithmetic on cross products. Image
//! coordinates have their origin at the top-left corner with y growing
//! downward, so a cycle whose cross products are positive is traversed
//! clockwise as it appears on the screen.

use vstd::prelude::*;

use crate::arith::lemma_mul_bound;
use crate::SquareError;

verus! {

/// Largest admissible coordinate value. It keeps every intermediate product
/// of the closed-form projective solve inside 128-bit arithmetic and every
/// pixel index inside a 32-bit `usize`.
pub const MAX_COORD: i32 = 32767;

/// A corner of the quadrilateral, in source-image pixel coordinates.
#[derive(Clone, Copy, PartialEq, Eq, Structural, Debug)]
pub struct ControlPoint {
    pub x: i32,
    pub y: i32,
}

impl ControlPoint {
    /// Coordinates are non-negative (image space) and small enough for the
    /// exact arithmetic of the solver and the warp.
    pub open spec fn in_range(self) -> bool {
        0 <= self.x <= MAX_COORD && 0 <= self.y <= MAX_COORD
    }
}

/// Lexicographic order on points: by x, then by y.
pub open spec fn lex_le(a: ControlPoint, b: ControlPoint) -> bool {
    a.x < b.x || (a.x == b.x && a.y <= b.y)
}

/// Twice the signed area of the triangle (o, a, b); positive when the
/// traversal o -> a -> b turns clockwise on the screen.
pub open spec fn cross(o: ControlPoint, a: ControlPoint, b: ControlPoint) -> int {
    (a.x - o.x) * (b.y - o.y) - (a.y - o.y) * (b.x - o.x)
}

/// An ordered sequence of four control points.
#[derive(Clone, Copy, PartialEq, Eq, Structural, Debug)]
pub struct Quad {
    pub p0: ControlPoint,
    pub p1: ControlPoint,
    pub p2: ControlPoint,
    pub p3: ControlPoint,
}

impl Quad {
    pub open spec fn in_range(self) -> bool {
        self.p0.in_range() && self.p1.in_range() && self.p2.in_range() && self.p3.in_range()
    }
}

/// The same cycle, started one vertex later.
pub open spec fn rot1(q: Quad) -> Quad {
    Quad { p0: q.p1, p1: q.p2, p2: q.p3, p3: q.p0 }
}

pub open spec fn rot2(q: Quad) -> Quad {
    rot1(rot1(q))
}

pub open spec fn rot3(q: Quad) -> Quad {
    rot1(rot2(q))
}

/// The same cycle walked the other way round, keeping the starting vertex.
pub open spec fn reversed(q: Quad) -> Quad {
    Quad { p0: q.p0, p1: q.p3, p2: q.p2, p3: q.p1 }
}

/// The middle two vertices exchanged: the second of the three ways to pair
/// four points into a cycle.
pub open spec fn swap_mid(q: Quad) -> Quad {
    Quad { p0: q.p0, p1: q.p2, p2: q.p1, p3: q.p3 }
}

/// The last two vertices exchanged: the third pairing.
pub open spec fn swap_last(q: Quad) -> Quad {
    Quad { p0: q.p0, p1: q.p1, p2: q.p3, p3: q.p2 }
}

/// A strictly convex cycle traversed clockwise on the screen.
pub open spec fn is_convex_pos(q: Quad) -> bool {
    cross(q.p0, q.p1, q.p2) > 0 && cross(q.p1, q.p2, q.p3) > 0 && cross(q.p2, q.p3, q.p0) > 0
        && cross(q.p3, q.p0, q.p1) > 0
}

/// A strictly convex cycle traversed counter-clockwise on the screen.
pub open spec fn is_convex_neg(q: Quad) -> bool {
    cross(q.p0, q.p1, q.p2) < 0 && cross(q.p1, q.p2, q.p3) < 0 && cross(q.p2, q.p3, q.p0) < 0
        && cross(q.p3, q.p0, q.p1) < 0
}

/// The four vertices, in this order, form a strictly convex quadrilateral.
pub open spec fn is_convex_cycle(q: Quad) -> bool {
    is_convex_pos(q) || is_convex_neg(q)
}

/// The four points are in strictly convex position: some arrangement of them
/// is a strictly convex cycle. Every arrangement of four points is, up to
/// rotation and reversal, one of the three pairings tested here.
pub open spec fn convex_position(q: Quad) -> bool {
    is_convex_cycle(q) || is_convex_cycle(swap_mid(q)) || is_convex_cycle(swap_last(q))
}

/// How many of the four vertices equal `p`.
pub open spec fn count_of(q: Quad, p: ControlPoint) -> int {
    (if q.p0 == p { 1int } else { 0 }) + (if q.p1 == p { 1int } else { 0 }) + (if q.p2 == p {
        1int
    } else {
        0
    }) + (if q.p3 == p { 1int } else { 0 })
}

/// Two quadrilaterals hold the same four points, multiplicity included.
pub open spec fn same_points(q1: Quad, q2: Quad) -> bool {
    forall|p: ControlPoint| #[trigger] count_of(q1, p) == count_of(q2, p)
}

/// The cross product is invariant under cyclic shifts of its arguments and
/// changes sign when the last two are exchanged.
pub proof fn lemma_cross_shift(o: ControlPoint, a: ControlPoint, b: ControlPoint)
    ensures
        cross(o, a, b) == cross(a, b, o),
        cross(o, a, b) == -cross(o, b, a),
{
    assert((a.x - o.x) * (b.y - o.y) - (a.y - o.y) * (b.x - o.x) == (b.x - a.x) * (o.y - a.y) - (
    b.y - a.y) * (o.x - a.x)) by (nonlinear_arith);
    assert((a.x - o.x) * (b.y - o.y) - (a.y - o.y) * (b.x - o.x) == -((b.x - o.x) * (a.y - o.y) - (
    b.y - o.y) * (a.x - o.x))) by (nonlinear_arith);
}

/// A triangle with a repeated vertex has no area.
pub proof fn lemma_cross_degenerate(a: ControlPoint, b: ControlPoint)
    ensures
        cross(a, b, b) == 0,
        cross(a, b, a) == 0,
        cross(a, a, b) == 0,
{
    assert((b.x - a.x) * (b.y - a.y) - (b.y - a.y) * (b.x - a.x) == 0) by (nonlinear_arith);
    assert((b.x - a.x) * (a.y - a.y) - (b.y - a.y) * (a.x - a.x) == 0) by (nonlinear_arith);
    assert((a.x - a.x) * (b.y - a.y) - (a.y - a.y) * (b.x - a.x) == 0) by (nonlinear_arith);
}

/// Reversing a cycle flips its winding and nothing else.
pub proof fn lemma_reversed_winding(q: Quad)
    ensures
        is_convex_pos(reversed(q)) == is_convex_neg(q),
        is_convex_neg(reversed(q)) == is_convex_pos(q),
{
    lemma_cross_shift(q.p0, q.p3, q.p2);
    lemma_cross_shift(q.p0, q.p2, q.p3);
    lemma_cross_shift(q.p2, q.p3, q.p0);
    lemma_cross_shift(q.p3, q.p2, q.p1);
    lemma_cross_shift(q.p3, q.p1, q.p2);
    lemma_cross_shift(q.p1, q.p2, q.p3);
    lemma_cross_shift(q.p2, q.p1, q.p0);
    lemma_cross_shift(q.p2, q.p0, q.p1);
    lemma_cross_shift(q.p0, q.p1, q.p2);
    lemma_cross_shift(q.p1, q.p0, q.p3);
    lemma_cross_shift(q.p1, q.p3, q.p0);
    lemma_cross_shift(q.p3, q.p0, q.p1);
}

/// A strictly convex cycle has four pairwise distinct vertices.
pub proof fn lemma_convex_distinct(q: Quad)
    requires
        is_convex_cycle(q),
    ensures
        q.p0 != q.p1 && q.p0 != q.p2 && q.p0 != q.p3 && q.p1 != q.p2 && q.p1 != q.p3 && q.p2
            != q.p3,
{
    if q.p0 == q.p1 {
        lemma_cross_degenerate(q.p3, q.p0);
    }
    if q.p1 == q.p2 {
        lemma_cross_degenerate(q.p0, q.p1);
    }
    if q.p2 == q.p3 {
        lemma_cross_degenerate(q.p1, q.p2);
    }
    if q.p3 == q.p0 {
        lemma_cross_degenerate(q.p2, q.p3);
    }
    if q.p0 == q.p2 {
        lemma_cross_degenerate(q.p0, q.p1);
    }
    if q.p1 == q.p3 {
        lemma_cross_degenerate(q.p1, q.p2);
    }
}

/// At most one of the three pairings of four points is a convex cycle.
pub proof fn lemma_pairings_exclusive(q: Quad)
    requires
        is_convex_cycle(q),
    ensures
        !is_convex_cycle(swap_mid(q)),
        !is_convex_cycle(swap_last(q)),
{
    // swap_mid(q) = (p0, p2, p1, p3): its first two cross products are the
    // negations of cross products of q, while its third is one of them.
    lemma_cross_shift(q.p0, q.p2, q.p1);
    lemma_cross_shift(q.p0, q.p1, q.p2);
    lemma_cross_shift(q.p2, q.p1, q.p3);
    lemma_cross_shift(q.p1, q.p2, q.p3);
    lemma_cross_shift(q.p1, q.p3, q.p0);
    lemma_cross_shift(q.p3, q.p0, q.p1);
    lemma_cross_shift(q.p3, q.p0, q.p2);
    // swap_last(q) = (p0, p1, p3, p2).
    lemma_cross_shift(q.p0, q.p1, q.p3);
    lemma_cross_shift(q.p1, q.p3, q.p2);
    lemma_cross_shift(q.p2, q.p3, q.p1);
    lemma_cross_shift(q.p3, q.p2, q.p0);
    lemma_cross_shift(q.p2, q.p3, q.p0);
    lemma_cross_shift(q.p2, q.p0, q.p1);
}

/// Rotating, reversing or re-pairing a cycle does not change which points it
/// holds, and rotation does not change its winding.
pub proof fn lemma_rearrangements(q: Quad)
    ensures
        same_points(rot1(q), q),
        same_points(rot2(q), q),
        same_points(rot3(q), q),
        same_points(reversed(q), q),
        same_points(swap_mid(q), q),
        same_points(swap_last(q), q),
        is_convex_pos(rot1(q)) == is_convex_pos(q),
        is_convex_pos(rot2(q)) == is_convex_pos(q),
        is_convex_pos(rot3(q)) == is_convex_pos(q),
{
    assert forall|p: ControlPoint| #[trigger] count_of(rot1(q), p) == count_of(q, p) by {}
    assert forall|p: ControlPoint| #[trigger] count_of(rot2(q), p) == count_of(q, p) by {}
    assert forall|p: ControlPoint| #[trigger] count_of(rot3(q), p) == count_of(q, p) by {}
    assert forall|p: ControlPoint| #[trigger] count_of(reversed(q), p) == count_of(q, p) by {}
    assert forall|p: ControlPoint| #[trigger] count_of(swap_mid(q), p) == count_of(q, p) by {}
    assert forall|p: ControlPoint| #[trigger] count_of(swap_last(q), p) == count_of(q, p) by {}
}

/// A cycle with positive winding, chosen between a cycle and its reversal.
pub open spec fn orient_pos(q: Quad) -> Quad {
    if is_convex_pos(q) {
        q
    } else {
        reversed(q)
    }
}

/// The rotation of the cycle that starts at its lexicographically least
/// vertex.
pub open spec fn lexmin_rotation(q: Quad) -> Quad {
    if lex_le(q.p0, q.p1) && lex_le(q.p0, q.p2) && lex_le(q.p0, q.p3) {
        q
    } else if lex_le(q.p1, q.p0) && lex_le(q.p1, q.p2) && lex_le(q.p1, q.p3) {
        rot1(q)
    } else if lex_le(q.p2, q.p0) && lex_le(q.p2, q.p1) && lex_le(q.p2, q.p3) {
        rot2(q)
    } else {
        rot3(q)
    }
}

/// What the validator returns: the convex hull as a clockwise cycle starting
/// at the lexicographically least point, or nothing if the four points are
/// not in strictly convex position.
pub open spec fn validate_spec(q: Quad) -> Option<Quad> {
    if is_convex_cycle(q) {
        Some(lexmin_rotation(orient_pos(q)))
    } else if is_convex_cycle(swap_mid(q)) {
        Some(lexmin_rotation(orient_pos(swap_mid(q))))
    } else if is_convex_cycle(swap_last(q)) {
        Some(lexmin_rotation(orient_pos(swap_last(q))))
    } else {
        None
    }
}

/// The quadrilateral formed by the first four points of a sequence, in the
/// order given.
pub open spec fn quad_of_seq(s: Seq<ControlPoint>) -> Quad {
    Quad { p0: s[0], p1: s[1], p2: s[2], p3: s[3] }
}

/// The first two vertices exchanged.
pub open spec fn swap_first(q: Quad) -> Quad {
    Quad { p0: q.p1, p1: q.p0, p2: q.p2, p3: q.p3 }
}

/// Whether the four points are in strictly convex position is a property of
/// the point set alone: it is invariant under reversal, rotation and every
/// exchange of neighbouring vertices (which together generate all
/// permutations).
pub proof fn lemma_convex_position_symmetric(q: Quad)
    ensures
        convex_position(rot1(q)) == convex_position(q),
        convex_position(reversed(q)) == convex_position(q),
        convex_position(swap_first(q)) == convex_position(q),
        convex_position(swap_mid(q)) == convex_position(q),
        convex_position(swap_last(q)) == convex_position(q),
{
    lemma_reversed_winding(q);
    lemma_reversed_winding(swap_mid(q));
    lemma_reversed_winding(swap_last(q));
    lemma_reversed_winding(rot2(reversed(swap_mid(q))));
    lemma_reversed_winding(rot3(reversed(swap_last(q))));
    lemma_reversed_winding(rot3(reversed(q)));
    // The candidates seen from a rotated start.
    assert(swap_mid(rot1(q)) == rot1(swap_last(q)));
    assert(swap_last(rot1(q)) == rot2(reversed(swap_mid(q))));
    // ... from a reversed cycle.
    assert(swap_mid(reversed(q)) == reversed(swap_last(q)));
    assert(swap_last(reversed(q)) == reversed(swap_mid(q)));
    // ... after exchanging the first two vertices.
    assert(swap_first(q) == rot3(reversed(swap_last(q))));
    assert(swap_mid(swap_first(q)) == rot2(reversed(swap_mid(q))));
    assert(swap_last(swap_first(q)) == rot3(reversed(q)));
    // ... after exchanging the middle or the last two vertices.
    assert(swap_mid(swap_mid(q)) == q);
    assert(swap_last(swap_mid(q)) == reversed(swap_last(q)));
    assert(swap_mid(swap_last(q)) == reversed(swap_mid(q)));
    assert(swap_last(swap_last(q)) == q);
}

/// A point strictly inside the triangle (a, b, c): the three triangles it
/// forms with the edges all wind the same way.
pub open spec fn strictly_inside(p: ControlPoint, a: ControlPoint, b: ControlPoint, c: ControlPoint) -> bool {
    (cross(a, b, p) > 0 && cross(b, c, p) > 0 && cross(c, a, p) > 0) || (cross(a, b, p) < 0
        && cross(b, c, p) < 0 && cross(c, a, p) < 0)
}

/// If the last point lies strictly inside the triangle of the first three,
/// the four points are not in convex position, whichever way they are
/// arranged.
pub proof fn lemma_interior_point_not_convex(q: Quad)
    requires
        strictly_inside(q.p3, q.p0, q.p1, q.p2),
    ensures
        !convex_position(q),
{
    let a = q.p0;
    let b = q.p1;
    let c = q.p2;
    let d = q.p3;
    // First pairing (a, b, c, d): cross(c, d, a) opposes cross(b, c, d).
    lemma_cross_shift(q.p2, q.p3, q.p0);
    lemma_cross_shift(q.p2, q.p0, q.p3);
    // Second pairing (a, c, b, d): cross(c, b, d) opposes cross(b, d, a).
    lemma_cross_shift(c, b, d);
    lemma_cross_shift(c, d, b);
    lemma_cross_shift(b, d, a);
    lemma_cross_shift(d, a, b);
    lemma_cross_shift(a, b, d);
    // Third pairing (a, b, d, c): cross(b, d, c) opposes cross(a, b, d).
    lemma_cross_shift(b, d, c);
    lemma_cross_shift(b, c, d);
}

/// Three collinear points admit no strictly convex arrangement.
pub proof fn lemma_collinear_not_convex(q: Quad)
    requires
        cross(q.p0, q.p1, q.p2) == 0,
    ensures
        !convex_position(q),
{
    lemma_cross_shift(q.p0, q.p2, q.p1);
    lemma_cross_shift(q.p0, q.p1, q.p2);
    lemma_cross_shift(q.p2, q.p0, q.p1);
    lemma_cross_shift(q.p1, q.p2, q.p0);
}

/// Validation sees only the point set: feeding the validator a cyclic
/// rotation of the input yields the identical hull, hence the identical
/// output image, since everything downstream is a function of the hull.
pub proof fn lemma_validate_rotation_invariant(q: Quad)
    ensures
        validate_spec(rot1(q)) == validate_spec(q),
{
    let q1 = rot1(q);
    assert(swap_mid(q1) == rot1(swap_last(q)));
    assert(swap_last(q1) == rot2(reversed(swap_mid(q))));
    lemma_reversed_winding(q);
    lemma_reversed_winding(swap_mid(q));
    lemma_reversed_winding(swap_last(q));
    lemma_reversed_winding(rot2(reversed(swap_mid(q))));
    if is_convex_cycle(q) {
        lemma_pairings_exclusive(q);
        lemma_validate_same_cycle_rotated(q);
    } else if is_convex_cycle(swap_mid(q)) {
        lemma_pairings_exclusive(swap_mid(q));
        assert(swap_last(swap_mid(q)) == reversed(swap_last(q)));
        lemma_reversed_winding(swap_last(q));
        // On the rotated input the convex pairing shows up as the third
        // candidate, rotated and reversed.
        let c = swap_mid(q);
        lemma_orient_of_rearranged(c, 2);
        assert(validate_spec(q1) == Some(lexmin_rotation(orient_pos(rot2(reversed(c))))));
    } else if is_convex_cycle(swap_last(q)) {
        lemma_pairings_exclusive(swap_last(q));
        assert(swap_mid(swap_last(q)) == reversed(swap_mid(q)));
        lemma_reversed_winding(swap_mid(q));
        let c = swap_last(q);
        lemma_orient_of_rotation(c, 1);
    } else {
    }
}

/// Orienting then canonicalising a rotated cycle gives the same result as
/// orienting and canonicalising the cycle itself.
proof fn lemma_validate_same_cycle_rotated(q: Quad)
    requires
        is_convex_cycle(q),
    ensures
        lexmin_rotation(orient_pos(rot1(q))) == lexmin_rotation(orient_pos(q)),
{
    lemma_orient_of_rotation(q, 1);
}

/// For a convex cycle, orientation commutes with rotation, and the canonical
/// (lexicographically least) starting vertex does not depend on where the
/// cycle started.
proof fn lemma_orient_of_rotation(q: Quad, k: int)
    requires
        is_convex_cycle(q),
        1 <= k <= 3,
    ensures
        lexmin_rotation(orient_pos(if k == 1 {
            rot1(q)
        } else if k == 2 {
            rot2(q)
        } else {
            rot3(q)
        })) == lexmin_rotation(orient_pos(q)),
{
    lemma_reversed_winding(q);
    lemma_reversed_winding(rot1(q));
    lemma_reversed_winding(rot2(q));
    lemma_reversed_winding(rot3(q));
    if is_convex_pos(q) {
        lemma_lexmin_of_rotation(q);
    } else {
        assert(reversed(rot1(q)) == rot3(reversed(q)));
        assert(reversed(rot2(q)) == rot2(reversed(q)));
        assert(reversed(rot3(q)) == rot1(reversed(q)));
        lemma_lexmin_of_rotation(reversed(q));
    }
}

/// Like `lemma_orient_of_rotation`, for a rotation of the reversed cycle.
proof fn lemma_orient_of_rearranged(q: Quad, k: int)
    requires
        is_convex_cycle(q),
        k == 2,
    ensures
        lexmin_rotation(orient_pos(rot2(reversed(q)))) == lexmin_rotation(orient_pos(q)),
{
    lemma_reversed_winding(q);
    lemma_reversed_winding(rot2(reversed(q)));
    if is_convex_pos(q) {
        // rot2(reversed(q)) winds the other way; reversing it rotates q.
        assert(reversed(rot2(reversed(q))) == rot2(q));
        lemma_lexmin_of_rotation(q);
    } else {
        lemma_lexmin_of_rotation(reversed(q));
    }
}

/// A convex cycle has a unique lexicographically least vertex, so the
/// canonical rotation is the same from any starting vertex.
proof fn lemma_lexmin_of_rotation(q: Quad)
    requires
        is_convex_pos(q),
    ensures
        lexmin_rotation(rot1(q)) == lexmin_rotation(q),
        lexmin_rotation(rot2(q)) == lexmin_rotation(q),
        lexmin_rotation(rot3(q)) == lexmin_rotation(q),
{
    lemma_convex_distinct(q);
}

/// Exact cross product of three in-range points.
pub fn cross_exec(o: ControlPoint, a: ControlPoint, b: ControlPoint) -> (r: i64)
    requires
        o.in_range(),
        a.in_range(),
        b.in_range(),
    ensures
        r as int == cross(o, a, b),
{
    let dx1 = a.x as i64 - o.x as i64;
    let dy1 = a.y as i64 - o.y as i64;
    let dx2 = b.x as i64 - o.x as i64;
    let dy2 = b.y as i64 - o.y as i64;
    proof {
        lemma_mul_bound(dx1 as int, dy2 as int, 32768, 32768);
        lemma_mul_bound(dy1 as int, dx2 as int, 32768, 32768);
    }
    dx1 * dy2 - dy1 * dx2
}

/// Whether the cycle is strictly convex with clockwise winding.
fn check_convex_pos(q: &Quad) -> (r: bool)
    requires
        q.in_range(),
    ensures
        r == is_convex_pos(*q),
{
    cross_exec(q.p0, q.p1, q.p2) > 0 && cross_exec(q.p1, q.p2, q.p3) > 0 && cross_exec(
        q.p2,
        q.p3,
        q.p0,
    ) > 0 && cross_exec(q.p3, q.p0, q.p1) > 0
}

/// Whether the cycle is strictly convex with counter-clockwise winding.
fn check_convex_neg(q: &Quad) -> (r: bool)
    requires
        q.in_range(),
    ensures
        r == is_convex_neg(*q),
{
    cross_exec(q.p0, q.p1, q.p2) < 0 && cross_exec(q.p1, q.p2, q.p3) < 0 && cross_exec(
        q.p2,
        q.p3,
        q.p0,
    ) < 0 && cross_exec(q.p3, q.p0, q.p1) < 0
}

/// If the cycle is convex, hand it back wound clockwise; otherwise nothing.
fn oriented_convex(q: Quad) -> (r: Option<Quad>)
    requires
        q.in_range(),
    ensures
        match r {
            Some(h) => is_convex_cycle(q) && h == orient_pos(q) && is_convex_pos(h)
                && same_points(h, q),
            None => !is_convex_cycle(q),
        },
{
    proof {
        lemma_rearrangements(q);
    }
    if check_convex_pos(&q) {
        Some(q)
    } else if check_convex_neg(&q) {
        proof {
            lemma_reversed_winding(q);
        }
        Some(Quad { p0: q.p0, p1: q.p3, p2: q.p2, p3: q.p1 })
    } else {
        None
    }
}

/// Exact lexicographic comparison.
fn lex_le_exec(a: ControlPoint, b: ControlPoint) -> (r: bool)
    ensures
        r == lex_le(a, b),
{
    a.x < b.x || (a.x == b.x && a.y <= b.y)
}

/// Rotate the cycle so its lexicographically least vertex comes first.
fn rotate_to_lexmin(q: Quad) -> (r: Quad)
    ensures
        r == lexmin_rotation(q),
{
    if lex_le_exec(q.p0, q.p1) && lex_le_exec(q.p0, q.p2) && lex_le_exec(q.p0, q.p3) {
        q
    } else if lex_le_exec(q.p1, q.p0) && lex_le_exec(q.p1, q.p2) && lex_le_exec(q.p1, q.p3) {
        Quad { p0: q.p1, p1: q.p2, p2: q.p3, p3: q.p0 }
    } else if lex_le_exec(q.p2, q.p0) && lex_le_exec(q.p2, q.p1) && lex_le_exec(q.p2, q.p3) {
        Quad { p0: q.p2, p1: q.p3, p2: q.p0, p3: q.p1 }
    } else {
        Quad { p0: q.p3, p1: q.p0, p2: q.p1, p3: q.p2 }
    }
}

/// Validates that the four supplied points are in strictly convex position
/// and returns their convex hull as a clockwise cycle starting at the
/// lexicographically least point. The hull holds exactly the input points;
/// any input that is not in strictly convex position — a point inside or on
/// the triangle of the other three, or three collinear points — is rejected.
pub fn validate_quadrilateral(points: &Vec<ControlPoint>) -> (r: Result<Quad, SquareError>)
    requires
        points@.len() == 4,
        forall|i: int| 0 <= i < 4 ==> (#[trigger] points@[i]).in_range(),
    ensures
        r is Ok <==> convex_position(quad_of_seq(points@)),
        match r {
            Ok(h) => validate_spec(quad_of_seq(points@)) == Some(h) && is_convex_pos(h)
                && same_points(h, quad_of_seq(points@)) && h.in_range(),
            Err(e) => validate_spec(quad_of_seq(points@)) is None && e
                == SquareError::InvalidQuadrilateral,
        },
{
    let q = Quad { p0: points[0], p1: points[1], p2: points[2], p3: points[3] };
    let c2 = Quad { p0: q.p0, p1: q.p2, p2: q.p1, p3: q.p3 };
    let c3 = Quad { p0: q.p0, p1: q.p1, p2: q.p3, p3: q.p2 };
    let oriented = if let Some(h) = oriented_convex(q) {
        h
    } else if let Some(h) = oriented_convex(c2) {
        h
    } else if let Some(h) = oriented_convex(c3) {
        h
    } else {
        return Err(SquareError::InvalidQuadrilateral);
    };
    proof {
        lemma_rearrangements(q);
        lemma_rearrangements(oriented);
    }
    Ok(rotate_to_lexmin(oriented))
}

/// The midpoint height of the edge (a, b); y grows downward, so the smallest
/// value belongs to the topmost edge.
pub open spec fn edge_mid_y(a: ControlPoint, b: ControlPoint) -> int {
    (a.y + b.y) / 2
}

/// The edge of the cycle whose midpoint is topmost; the first such edge wins
/// a tie.
pub open spec fn top_edge(q: Quad) -> int {
    let m0 = edge_mid_y(q.p0, q.p1);
    let m1 = edge_mid_y(q.p1, q.p2);
    let m2 = edge_mid_y(q.p2, q.p3);
    let m3 = edge_mid_y(q.p3, q.p0);
    if m0 <= m1 && m0 <= m2 && m0 <= m3 {
        0int
    } else if m1 <= m2 && m1 <= m3 {
        1int
    } else if m2 <= m3 {
        2int
    } else {
        3int
    }
}

/// The vertex the canonical traversal starts from: the left endpoint of the
/// topmost edge (the second endpoint when their x coordinates tie).
pub open spec fn start_vertex(q: Quad) -> int {
    let e = top_edge(q);
    if e == 0 {
        if q.p0.x < q.p1.x {
            0int
        } else {
            1int
        }
    } else if e == 1 {
        if q.p1.x < q.p2.x {
            1int
        } else {
            2int
        }
    } else if e == 2 {
        if q.p2.x < q.p3.x {
            2int
        } else {
            3int
        }
    } else {
        if q.p3.x < q.p0.x {
            3int
        } else {
            0int
        }
    }
}

/// The hull rotated so traversal starts at the canonical vertex while the
/// cyclic order is preserved.
pub open spec fn canonical_order_spec(q: Quad) -> Quad {
    let s = start_vertex(q);
    if s == 0 {
        q
    } else if s == 1 {
        rot1(q)
    } else if s == 2 {
        rot2(q)
    } else {
        rot3(q)
    }
}

/// Rotates the hull so traversal starts at the deterministic reference
/// corner: the left endpoint of the edge whose midpoint is topmost in image
/// space. The cyclic order — and so the winding — is preserved.
pub fn canonical_order(q: Quad) -> (r: Quad)
    requires
        q.in_range(),
    ensures
        r == canonical_order_spec(q),
        r.in_range(),
        same_points(r, q),
        is_convex_pos(q) ==> is_convex_pos(r),
{
    proof {
        lemma_rearrangements(q);
    }
    let m0 = (q.p0.y as u32 + q.p1.y as u32) / 2;
    let m1 = (q.p1.y as u32 + q.p2.y as u32) / 2;
    let m2 = (q.p2.y as u32 + q.p3.y as u32) / 2;
    let m3 = (q.p3.y as u32 + q.p0.y as u32) / 2;
    let s: u32 = if m0 <= m1 && m0 <= m2 && m0 <= m3 {
        if q.p0.x < q.p1.x {
            0
        } else {
            1
        }
    } else if m1 <= m2 && m1 <= m3 {
        if q.p1.x < q.p2.x {
            1
        } else {
            2
        }
    } else if m2 <= m3 {
        if q.p2.x < q.p3.x {
            2
        } else {
            3
        }
    } else {
        if q.p3.x < q.p0.x {
            3
        } else {
            0
        }
    };
    if s == 0 {
        q
    } else if s == 1 {
        Quad { p0: q.p1, p1: q.p2, p2: q.p3, p3: q.p0 }
    } else if s == 2 {
        Quad { p0: q.p2, p1: q.p3, p2: q.p0, p3: q.p1 }
    } else {
        Quad { p0: q.p3, p1: q.p0, p2: q.p1, p3: q.p2 }
    }
}

/// The axis-aligned rectangle spanning the four points. It defines both the
/// source crop region and the output image dimensions.
#[derive(Clone, Copy, PartialEq, Eq, Structural, Debug)]
pub struct BoundingBox {
    pub min_x: i32,
    pub min_y: i32,
    pub max_x: i32,
    pub max_y: i32,
}

pub open spec fn imin(a: i32, b: i32) -> i32 {
    if a <= b {
        a
    } else {
        b
    }
}

pub open spec fn imax(a: i32, b: i32) -> i32 {
    if a >= b {
        a
    } else {
        b
    }
}

/// The bounding box of the quadrilateral.
pub open spec fn bbox_of(q: Quad) -> BoundingBox {
    BoundingBox {
        min_x: imin(imin(q.p0.x, q.p1.x), imin(q.p2.x, q.p3.x)),
        min_y: imin(imin(q.p0.y, q.p1.y), imin(q.p2.y, q.p3.y)),
        max_x: imax(imax(q.p0.x, q.p1.x), imax(q.p2.x, q.p3.x)),
        max_y: imax(imax(q.p0.y, q.p1.y), imax(q.p2.y, q.p3.y)),
    }
}

impl BoundingBox {
    /// The width of the output image.
    pub open spec fn width(self) -> int {
        self.max_x - self.min_x
    }

    /// The height of the output image.
    pub open spec fn height(self) -> int {
        self.max_y - self.min_y
    }
}

fn min_exec(a: i32, b: i32) -> (r: i32)
    ensures
        r == imin(a, b),
{
    if a <= b {
        a
    } else {
        b
    }
}

fn max_exec(a: i32, b: i32) -> (r: i32)
    ensures
        r == imax(a, b),
{
    if a >= b {
        a
    } else {
        b
    }
}

/// Computes the axis-aligned bounding box spanning the four points.
pub fn bounding_box(q: &Quad) -> (r: BoundingBox)
    ensures
        r == bbox_of(*q),
{
    BoundingBox {
        min_x: min_exec(min_exec(q.p0.x, q.p1.x), min_exec(q.p2.x, q.p3.x)),
        min_y: min_exec(min_exec(q.p0.y, q.p1.y), min_exec(q.p2.y, q.p3.y)),
        max_x: max_exec(max_exec(q.p0.x, q.p1.x), max_exec(q.p2.x, q.p3.x)),
        max_y: max_exec(max_exec(q.p0.y, q.p1.y), max_exec(q.p2.y, q.p3.y)),
    }
}

/// A strictly convex quadrilateral spans a rectangle of positive width and
/// height: were all x (or all y) equal, three of its points would be
/// collinear.
pub proof fn lemma_convex_bbox_positive(q: Quad)
    requires
        is_convex_pos(q),
    ensures
        1 <= bbox_of(q).width(),
        1 <= bbox_of(q).height(),
{
    if bbox_of(q).width() <= 0 {
        assert(q.p0.x == q.p1.x && q.p1.x == q.p2.x);
        assert(cross(q.p0, q.p1, q.p2) == 0) by (nonlinear_arith)
            requires
                q.p0.x == q.p1.x && q.p1.x == q.p2.x,
        ;
    }
    if bbox_of(q).height() <= 0 {
        assert(q.p0.y == q.p1.y && q.p1.y == q.p2.y);
        assert(cross(q.p0, q.p1, q.p2) == 0) by (nonlinear_arith)
            requires
                q.p0.y == q.p1.y && q.p1.y == q.p2.y,
        ;
    }
}

} // verus!
