//! From the world to the pixels of a window.
use vstd::prelude::*;
use crate::scalar::trunc_div;

verus! {

/// `v` clamped into the range of `i32`.
pub open spec fn clamp_pixel(v: int) -> int {
    if v < i32::MIN {
        i32::MIN as int
    } else if v > i32::MAX {
        i32::MAX as int
    } else {
        v
    }
}

/// Where the scalar `v` of a world `span` wide falls in a window `window`
/// pixels wide: `v * window / span`, rounded toward zero.
pub open spec fn pixel(v: int, window: int, span: int) -> int {
    clamp_pixel(trunc_div(v * window, span))
}

/// Brings a scalar of the world to the pixels of a window.
pub fn to_pixel(v: i64, window: i32, span: i64) -> (p: i32)
    requires
        0 < span,
    ensures
        p == pixel(v as int, window as int, span as int),
{
    assert(-0x4000_0000_0000_0000_0000_0000 <= (v as int) * (window as int)
        <= 0x4000_0000_0000_0000_0000_0000) by (nonlinear_arith)
        requires
            -0x8000_0000_0000_0000 <= v as int <= 0x7fff_ffff_ffff_ffff,
            -0x8000_0000 <= window as int <= 0x7fff_ffff,
    ;
    let wide: i128 = (v as i128) * (window as i128) / (span as i128);
    if wide < i32::MIN as i128 {
        i32::MIN
    } else if wide > i32::MAX as i128 {
        i32::MAX
    } else {
        wide as i32
    }
}

/// `(dx, dy)` is drawn for a disc of radius `radius`: it lies in the disc,
/// and not on its lowest column or row.
pub open spec fn in_disc(dx: int, dy: int, radius: int) -> bool {
    &&& -radius < dx <= radius
    &&& -radius < dy <= radius
    &&& dx * dx + dy * dy <= radius * radius
}

/// The pixels of a disc of radius `radius`, as offsets from its centre, each
/// once.
pub fn disc(radius: i32) -> (points: Vec<(i32, i32)>)
    ensures
        forall|i: int|
            0 <= i < points@.len() ==> in_disc(
                (#[trigger] points@[i]).0 as int,
                points@[i].1 as int,
                radius as int,
            ),
        forall|dx: int, dy: int|
            in_disc(dx, dy, radius as int) ==> points@.contains((dx as i32, dy as i32)),
        points@.no_duplicates(),
{
    let mut points: Vec<(i32, i32)> = Vec::new();
    if radius <= 0 {
        return points;
    }
    let r: i64 = radius as i64;
    assert(0 <= r * r <= 0x3fff_ffff_0000_0001) by (nonlinear_arith)
        requires
            0 <= r <= 0x7fff_ffff,
    ;
    let mut dx: i64 = r;
    while dx > -r
        invariant
            r == radius,
            0 < r,
            -r <= dx <= r,
            0 <= r * r <= 0x3fff_ffff_0000_0001,
            forall|i: int|
                0 <= i < points@.len() ==> in_disc(
                    (#[trigger] points@[i]).0 as int,
                    points@[i].1 as int,
                    r as int,
                ) && points@[i].0 > dx,
            forall|x: int, y: int|
                in_disc(x, y, r as int) && x > dx ==> points@.contains((x as i32, y as i32)),
            points@.no_duplicates(),
        decreases dx + r,
    {
        let mut dy: i64 = r;
        while dy > -r
            invariant
                r == radius,
                0 < r,
                -r < dx <= r,
                -r <= dy <= r,
                0 <= r * r <= 0x3fff_ffff_0000_0001,
                forall|i: int|
                    0 <= i < points@.len() ==> in_disc(
                        (#[trigger] points@[i]).0 as int,
                        points@[i].1 as int,
                        r as int,
                    ) && (points@[i].0 > dx || (points@[i].0 == dx && points@[i].1 > dy)),
                forall|x: int, y: int|
                    in_disc(x, y, r as int) && (x > dx || (x == dx && y > dy))
                        ==> points@.contains((x as i32, y as i32)),
                points@.no_duplicates(),
            decreases dy + r,
        {
            assert(0 <= dx * dx <= r * r && 0 <= dy * dy <= r * r) by (nonlinear_arith)
                requires
                    -r <= dx <= r,
                    -r <= dy <= r,
            ;
            let ghost before = points@;
            if dx * dx + dy * dy <= r * r {
                points.push((dx as i32, dy as i32));
                proof {
                    let added = (dx as i32, dy as i32);
                    assert(points@[before.len() as int] == added);
                    assert forall|x: int, y: int|
                        in_disc(x, y, r as int) && (x > dx || (x == dx && y >= dy))
                        implies points@.contains((x as i32, y as i32)) by {
                        if x == dx && y == dy {
                        } else {
                            let i = choose|i: int|
                                0 <= i < before.len() && before[i] == (x as i32, y as i32);
                            assert(points@[i] == (x as i32, y as i32));
                        }
                    }
                }
            }
            dy -= 1;
        }
        dx -= 1;
    }
    points
}

} // verus!
