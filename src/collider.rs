//! Axis-aligned rectangle versus circle contact.
use vstd::prelude::*;

verus! {

/// A point or a displacement on the playfield, in thousandths of a pixel.
#[derive(Clone, Copy, Debug, PartialEq, Eq, Structural)]
pub struct Vec2 {
    pub x: i64,
    pub y: i64,
}

/// An axis-aligned rectangle given by its center and its half-extents.
#[derive(Clone, Copy, Debug, PartialEq, Eq, Structural)]
pub struct Rect {
    pub center: Vec2,
    pub half: Vec2,
}

/// The direction away from a rectangle at a contact; each component is
/// -1, 0 or 1, and at least one of them is not 0.
#[derive(Clone, Copy, Debug, PartialEq, Eq, Structural)]
pub struct Normal {
    pub x: i8,
    pub y: i8,
}

pub open spec fn clamp(v: int, lo: int, hi: int) -> int {
    if v < lo {
        lo
    } else if v > hi {
        hi
    } else {
        v
    }
}

pub open spec fn abs(v: int) -> int {
    if v < 0 {
        -v
    } else {
        v
    }
}

/// The side of 0 on which `v` lies; 0 itself counts as positive.
pub open spec fn sign(v: int) -> i8 {
    if v < 0 {
        -1i8
    } else {
        1i8
    }
}

/// Offset along one axis from the nearest point of the segment
/// `[center - half, center + half]` to `c`.
pub open spec fn gap(c: int, center: int, half: int) -> int {
    c - clamp(c, center - half, center + half)
}

/// A circle touches a rectangle when both have positive size and the point
/// of the rectangle nearest to the circle's center lies within the radius.
pub open spec fn touches(c: Vec2, radius: int, rect: Rect) -> bool {
    let ex = gap(c.x as int, rect.center.x as int, rect.half.x as int);
    let ey = gap(c.y as int, rect.center.y as int, rect.half.y as int);
    &&& radius > 0
    &&& rect.half.x > 0
    &&& rect.half.y > 0
    &&& ex * ex + ey * ey <= radius * radius
}

/// The normal at a contact. Outside the rectangle on one axis it is that
/// axis; outside on both (a corner) it has both components. With the center
/// inside the rectangle it is the axis along which the center is nearest an
/// edge relative to the half-extent on that axis, the vertical one on a tie.
pub open spec fn contact_normal(c: Vec2, rect: Rect) -> Normal {
    let dx = c.x - rect.center.x;
    let dy = c.y - rect.center.y;
    let out_x = abs(dx) > rect.half.x;
    let out_y = abs(dy) > rect.half.y;
    if out_x && out_y {
        Normal { x: sign(dx), y: sign(dy) }
    } else if out_x {
        Normal { x: sign(dx), y: 0i8 }
    } else if out_y {
        Normal { x: 0i8, y: sign(dy) }
    } else if abs(dx) * rect.half.y > abs(dy) * rect.half.x {
        Normal { x: sign(dx), y: 0i8 }
    } else {
        Normal { x: 0i8, y: sign(dy) }
    }
}

/// The contact between a circle and a rectangle, if they touch.
pub open spec fn contact(c: Vec2, radius: int, rect: Rect) -> Option<Normal> {
    if touches(c, radius, rect) {
        Some(contact_normal(c, rect))
    } else {
        None
    }
}

pub open spec fn is_unit_normal(n: Normal) -> bool {
    &&& -1 <= n.x <= 1
    &&& -1 <= n.y <= 1
    &&& (n.x != 0 || n.y != 0)
}

proof fn lemma_square_above(a: int, r: int)
    requires
        0 <= r < abs(a),
    ensures
        a * a > r * r,
{
    assert(abs(a) * abs(a) > r * r) by (nonlinear_arith)
        requires
            0 <= r < abs(a),
    ;
    assert(a * a == abs(a) * abs(a)) by (nonlinear_arith)
        requires
            abs(a) == a || abs(a) == -a,
    ;
}

proof fn lemma_square_within(a: int, r: int)
    requires
        abs(a) <= r,
    ensures
        a * a <= r * r,
{
    assert(abs(a) * abs(a) <= r * r) by (nonlinear_arith)
        requires
            0 <= abs(a) <= r,
    ;
    assert(a * a == abs(a) * abs(a)) by (nonlinear_arith)
        requires
            abs(a) == a || abs(a) == -a,
    ;
}

proof fn lemma_product_within(a: int, b: int, ma: int, mb: int)
    requires
        0 <= a <= ma,
        0 <= b <= mb,
    ensures
        a * b <= ma * mb,
{
    assert(a * b <= ma * mb) by (nonlinear_arith)
        requires
            0 <= a <= ma,
            0 <= b <= mb,
    ;
}

fn abs_wide(v: i128) -> (r: i128)
    requires
        v > i128::MIN,
    ensures
        r == abs(v as int),
{
    if v < 0 {
        -v
    } else {
        v
    }
}

fn sign_of(v: i128) -> (r: i8)
    ensures
        r == sign(v as int),
{
    if v < 0 {
        -1
    } else {
        1
    }
}

fn gap_wide(c: i64, center: i64, half: i64) -> (r: i128)
    ensures
        r == gap(c as int, center as int, half as int),
        half >= 0 ==> abs(r as int) <= abs(c - center),
{
    let lo: i128 = center as i128 - half as i128;
    let hi: i128 = center as i128 + half as i128;
    let c: i128 = c as i128;
    if c < lo {
        c - lo
    } else if c > hi {
        c - hi
    } else {
        0
    }
}

/// Whether a circle of `radius` centered at `center` touches `rect`, and if
/// so the normal of the contact. Degenerate shapes (radius or a half-extent
/// not positive) never touch.
pub fn intersects(center: Vec2, radius: i64, rect: Rect) -> (r: Option<Normal>)
    ensures
        r == contact(center, radius as int, rect),
        r matches Some(n) ==> is_unit_normal(n),
{
    if radius <= 0 || rect.half.x <= 0 || rect.half.y <= 0 {
        return None;
    }
    let ex = gap_wide(center.x, rect.center.x, rect.half.x);
    let ey = gap_wide(center.y, rect.center.y, rect.half.y);
    let r: i128 = radius as i128;
    let ax = abs_wide(ex);
    let ay = abs_wide(ey);
    if ax > r {
        proof {
            lemma_square_above(ex as int, r as int);
            assert(ey * ey >= 0) by (nonlinear_arith);
        }
        return None;
    }
    if ay > r {
        proof {
            lemma_square_above(ey as int, r as int);
            assert(ex * ex >= 0) by (nonlinear_arith);
        }
        return None;
    }
    proof {
        lemma_square_within(ex as int, r as int);
        lemma_square_within(ey as int, r as int);
        lemma_product_within(r as int, r as int, i64::MAX as int, i64::MAX as int);
        assert(i64::MAX as int * i64::MAX as int <= 0x4000_0000_0000_0000_0000_0000_0000_0000)
            by (nonlinear_arith);
        assert(ex * ex <= 0x4000_0000_0000_0000_0000_0000_0000_0000);
        assert(ey * ey <= 0x4000_0000_0000_0000_0000_0000_0000_0000);
        assert(ex * ex >= 0 && ey * ey >= 0) by (nonlinear_arith);
    }
    if ex * ex + ey * ey > r * r {
        return None;
    }
    let dx: i128 = center.x as i128 - rect.center.x as i128;
    let dy: i128 = center.y as i128 - rect.center.y as i128;
    let adx = abs_wide(dx);
    let ady = abs_wide(dy);
    let hx: i128 = rect.half.x as i128;
    let hy: i128 = rect.half.y as i128;
    let out_x = adx > hx;
    let out_y = ady > hy;
    if out_x && out_y {
        Some(Normal { x: sign_of(dx), y: sign_of(dy) })
    } else if out_x {
        Some(Normal { x: sign_of(dx), y: 0 })
    } else if out_y {
        Some(Normal { x: 0, y: sign_of(dy) })
    } else {
        proof {
            lemma_product_within(adx as int, hy as int, hx as int, i64::MAX as int);
            lemma_product_within(ady as int, hx as int, hy as int, i64::MAX as int);
            lemma_product_within(hx as int, i64::MAX as int, i64::MAX as int, i64::MAX as int);
            lemma_product_within(hy as int, i64::MAX as int, i64::MAX as int, i64::MAX as int);
        }
        if adx * hy > ady * hx {
            Some(Normal { x: sign_of(dx), y: 0 })
        } else {
            Some(Normal { x: 0, y: sign_of(dy) })
        }
    }
}

} // verus!
