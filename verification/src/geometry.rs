//! Pure collision geometry: the exact segment-segment intersection predicate
//! used for ball-versus-paddle and ball-versus-block tests, and a clamp
//! helper. Treating the ball's travel as a segment (rather than testing
//! rectangle overlap) avoids missed collisions when the ball moves several
//! pixels per frame.

use vstd::prelude::*;

verus! {

/// Whether the segment (x1,y1)-(x2,y2) and the segment (x3,y3)-(x4,y4)
/// intersect, touching cases included.
///
/// Standard signed-area ("cross product") sign test: if both endpoints of one
/// segment lie strictly on the same side of the other segment's line (the two
/// signed areas have a strictly positive product), the segments cannot cross;
/// if neither such early exit applies, they intersect.
pub open spec fn seg_intersect(
    x1: int, y1: int,
    x2: int, y2: int,
    x3: int, y3: int,
    x4: int, y4: int,
) -> bool {
    let s1 = (x1 - x2) * (y3 - y1) - (y1 - y2) * (x3 - x1);
    let t1 = (x1 - x2) * (y4 - y1) - (y1 - y2) * (x4 - x1);
    if s1 * t1 > 0 {
        false
    } else {
        let s2 = (x3 - x4) * (y1 - y3) - (y3 - y4) * (x1 - x3);
        let t2 = (x3 - x4) * (y2 - y3) - (y3 - y4) * (x2 - x3);
        !(s2 * t2 > 0)
    }
}

/// A product of two integers is strictly positive exactly when both factors
/// are strictly positive or both are strictly negative.
proof fn lemma_product_sign(a: int, b: int)
    ensures
        a * b > 0 <==> ((a > 0 && b > 0) || (a < 0 && b < 0)),
{
    assert(a * b > 0 <==> ((a > 0 && b > 0) || (a < 0 && b < 0))) by (nonlinear_arith);
}

/// Twice the signed area of the triangle p-q-r, positive when r lies to one
/// side of the directed line p-q and negative when it lies to the other.
///
/// Computed in `i128`: each difference of `i32` values fits in 33 bits, so
/// each product fits in 66 bits and the subtraction in 67, far from overflow.
fn signed_area(px: i32, py: i32, qx: i32, qy: i32, rx: i32, ry: i32) -> (s: i128)
    ensures
        s == (px - qx) * (ry - py) - (py - qy) * (rx - px),
{
    let a = px as i128 - qx as i128;
    let b = ry as i128 - py as i128;
    let c = py as i128 - qy as i128;
    let d = rx as i128 - px as i128;
    proof {
        assert(-0x10000000000000000 <= a * b <= 0x10000000000000000) by (nonlinear_arith)
            requires
                -0x100000000 <= a <= 0x100000000,
                -0x100000000 <= b <= 0x100000000,
        ;
        assert(-0x10000000000000000 <= c * d <= 0x10000000000000000) by (nonlinear_arith)
            requires
                -0x100000000 <= c <= 0x100000000,
                -0x100000000 <= d <= 0x100000000,
        ;
    }
    a * b - c * d
}

/// Intersection test between segment 1-2 and segment 3-4.
///
/// The signed areas are computed exactly in `i128`, and comparing their signs
/// replaces the product test, so the result equals the mathematical predicate
/// for every input.
pub fn is_intersect(
    x1: i32, y1: i32,
    x2: i32, y2: i32,
    x3: i32, y3: i32,
    x4: i32, y4: i32,
) -> (r: bool)
    ensures
        r == seg_intersect(
            x1 as int, y1 as int,
            x2 as int, y2 as int,
            x3 as int, y3 as int,
            x4 as int, y4 as int,
        ),
{
    let s = signed_area(x1, y1, x2, y2, x3, y3);
    let t = signed_area(x1, y1, x2, y2, x4, y4);
    proof {
        lemma_product_sign(s as int, t as int);
    }
    if (s > 0 && t > 0) || (s < 0 && t < 0) {
        return false;
    }
    let s = signed_area(x3, y3, x4, y4, x1, y1);
    let t = signed_area(x3, y3, x4, y4, x2, y2);
    proof {
        lemma_product_sign(s as int, t as int);
    }
    if (s > 0 && t > 0) || (s < 0 && t < 0) {
        return false;
    }
    true
}

/// The value of `value` forced into the closed interval `[min, max]`.
pub open spec fn clamp_int(min: int, value: int, max: int) -> int {
    if value < min {
        min
    } else if value > max {
        max
    } else {
        value
    }
}

/// Clamp `value` to the closed interval `[min, max]`.
pub fn clamp(min: i32, value: i32, max: i32) -> (r: i32)
    ensures
        r == clamp_int(min as int, value as int, max as int),
{
    if value < min {
        return min;
    }
    if value > max {
        return max;
    }
    value
}

} // verus!
