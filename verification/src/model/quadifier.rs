//! Lowering of cuboid elements to textured quads.

use vstd::prelude::*;
use crate::fixed::{Fixed, clamp_raw, lemma_round_div_exact, round_div, round_div_exec};
use crate::model::{Mesh, Quad, QuadView, QuadifyError, QuadifyErrorView, Vertex, quad_views};
use crate::types::{Direction, Vec2, Vec3};
use crate::vanilla::model::{Cube, Face, FaceRotation, direction_at};
use crate::vanilla::texture::{TextureMap, TextureRef, TextureRefView, resolve_spec};

verus! {

/// The edge of the block space, 16, in raw units.
pub const BLOCK_RAW: i32 = 1048576;

/// A full turn, 360 degrees, in raw units.
pub const FULL_TURN_RAW: i32 = 23592960;

/// `x` mirrored within the block: 16 minus `x`.
pub open spec fn spec_mirrored(x: Fixed) -> Fixed {
    Fixed { raw: clamp_raw(BLOCK_RAW - x@) as i32 }
}

/// `x` mirrored within the block: 16 minus `x`.
fn mirrored(x: Fixed) -> (m: Fixed)
    ensures
        m == spec_mirrored(x),
{
    Fixed::saturate(BLOCK_RAW as i128 - x.raw as i128)
}

/// The extent of a cuboid along the two axes of the plane of a face, as
/// left, bottom, right, top: x and z for down and up, x and y for north and
/// south, z and y for west and east.
pub open spec fn spec_projected(from: Vec3, to: Vec3, d: Direction) -> [Fixed; 4] {
    match d {
        Direction::Down | Direction::Up => [from[0], from[2], to[0], to[2]],
        Direction::North | Direction::South => [from[0], from[1], to[0], to[1]],
        Direction::West | Direction::East => [from[2], from[1], to[2], to[1]],
    }
}

/// The texture rectangle of a face that states none: the extent of the
/// cuboid in the plane of the face, its horizontal interval mirrored within
/// the block for a direction that looks along its axis in the negative
/// sense.
pub open spec fn spec_default_uv(from: Vec3, to: Vec3, d: Direction) -> [Fixed; 4] {
    let rect = spec_projected(from, to, d);
    if d.spec_negative_axis() {
        [spec_mirrored(rect[2]), rect[1], spec_mirrored(rect[0]), rect[3]]
    } else {
        rect
    }
}

/// The extent of a cuboid along the two axes of the plane of a face.
fn projected(from: &Vec3, to: &Vec3, d: Direction) -> (rect: [Fixed; 4])
    ensures
        rect == spec_projected(*from, *to, d),
{
    let rect = match d {
        Direction::Down | Direction::Up => [from[0], from[2], to[0], to[2]],
        Direction::North | Direction::South => [from[0], from[1], to[0], to[1]],
        Direction::West | Direction::East => [from[2], from[1], to[2], to[1]],
    };
    assert(rect =~= spec_projected(*from, *to, d));
    rect
}

/// The texture rectangle of a face that states none.
pub fn default_uv(from: &Vec3, to: &Vec3, d: Direction) -> (rect: [Fixed; 4])
    ensures
        rect == spec_default_uv(*from, *to, d),
{
    let rect = projected(from, to, d);
    if d.negative_axis() {
        let flipped = [mirrored(rect[2]), rect[1], mirrored(rect[0]), rect[3]];
        assert(flipped =~= spec_default_uv(*from, *to, d));
        flipped
    } else {
        rect
    }
}

/// Whether the angle `rot`, in raw units, lies less than a hundredth of a
/// degree from `degrees`.
pub open spec fn near(rot: int, degrees: int) -> bool {
    -65536 < 100 * (rot - degrees * 65536) < 65536
}

/// The sine and cosine of a face's turn, in raw units: exact for an angle
/// that, taken modulo 360, lies less than a hundredth of a degree from 0,
/// 90, 180 or 270, the stated ones for any other angle.
pub open spec fn spec_unit_rotation(r: FaceRotation) -> (int, int) {
    let rot = r.degrees@ % (FULL_TURN_RAW as int);
    if near(rot, 0) {
        (0, 65536)
    } else if near(rot, 90) {
        (65536, 0)
    } else if near(rot, 180) {
        (0, -65536)
    } else if near(rot, 270) {
        (-65536, 0)
    } else {
        (r.sin@, r.cos@)
    }
}

/// Whether `rot` lies less than a hundredth of a degree from `degrees`.
fn is_near(rot: i64, degrees: i64) -> (b: bool)
    requires
        0 <= rot < FULL_TURN_RAW,
        0 <= degrees <= 360,
    ensures
        b == near(rot as int, degrees as int),
{
    let diff = 100 * (rot - degrees * 65536);
    -65536 < diff && diff < 65536
}

/// The sine and cosine of a face's turn.
pub fn unit_rotation(r: FaceRotation) -> (sc: (Fixed, Fixed))
    ensures
        (sc.0@, sc.1@) == spec_unit_rotation(r),
{
    let m = (r.degrees.raw as i64) % (FULL_TURN_RAW as i64);
    let rot = if m < 0 {
        m + FULL_TURN_RAW as i64
    } else {
        m
    };
    if is_near(rot, 0) {
        (Fixed::zero(), Fixed::one())
    } else if is_near(rot, 90) {
        (Fixed::one(), Fixed::zero())
    } else if is_near(rot, 180) {
        (Fixed::zero(), Fixed::from_raw(-65536))
    } else if is_near(rot, 270) {
        (Fixed::from_raw(-65536), Fixed::zero())
    } else {
        (r.sin, r.cos)
    }
}

/// The horizontal side of corner `k` of a rectangle, before any turn: -1
/// for left, 1 for right. The corners run left bottom, left top, right
/// top, right bottom.
pub open spec fn corner_x(k: int) -> int {
    if k == 0 || k == 1 {
        -1
    } else {
        1
    }
}

/// The vertical side of corner `k` of a rectangle, before any turn: -1 for
/// bottom, 1 for top.
pub open spec fn corner_y(k: int) -> int {
    if k == 0 || k == 3 {
        -1
    } else {
        1
    }
}

/// The point of the interval from `lo` to `hi` at the fraction
/// `factor / 131072`, rounded to the nearest scalar and kept in range.
pub open spec fn along(lo: Fixed, hi: Fixed, factor: int) -> Fixed {
    Fixed { raw: clamp_raw(lo@ + round_div((hi@ - lo@) * factor, 131072)) as i32 }
}

/// The texture coordinate of corner `k` of the rectangle `rect`, turned
/// about the middle of the rectangle by the angle with the given sine and
/// cosine. In the frame where the rectangle spans -1 to 1 both ways, the
/// corner `(x, y)` goes to `(x cos - y sin, x sin + y cos)`.
pub open spec fn spec_turned_corner(rect: [Fixed; 4], k: int, sin: int, cos: int) -> Vec2 {
    [
        along(rect[0], rect[2], 65536 + corner_x(k) * cos - corner_y(k) * sin),
        along(rect[1], rect[3], 65536 + corner_x(k) * sin + corner_y(k) * cos),
    ]
}

/// A quarter turn, or none, only permutes the corners of the rectangle.
pub proof fn lemma_quarter_turn_permutes(rect: [Fixed; 4], k: int, sin: int, cos: int)
    requires
        0 <= k < 4,
        (sin == 0 && (cos == 65536 || cos == -65536)) || (cos == 0 && (sin == 65536 || sin
            == -65536)),
    ensures
        spec_turned_corner(rect, k, sin, cos)[0] == (if corner_x(k) * cos - corner_y(k) * sin < 0 {
            rect[0]
        } else {
            rect[2]
        }),
        spec_turned_corner(rect, k, sin, cos)[1] == (if corner_x(k) * sin + corner_y(k) * cos < 0 {
            rect[1]
        } else {
            rect[3]
        }),
{
    let fu = 65536 + corner_x(k) * cos - corner_y(k) * sin;
    let fv = 65536 + corner_x(k) * sin + corner_y(k) * cos;
    assert(fu == 0 || fu == 131072);
    assert(fv == 0 || fv == 131072);
    let w = rect[2]@ - rect[0]@;
    let h = rect[3]@ - rect[1]@;
    lemma_round_div_exact(0, 131072);
    lemma_round_div_exact(w, 131072);
    lemma_round_div_exact(h, 131072);
    assert(w * 0 == 0 && h * 0 == 0);
}

/// The point of the interval from `lo` to `hi` at `factor / 131072`.
fn point_along(lo: Fixed, hi: Fixed, factor: i128) -> (x: Fixed)
    requires
        -0x2_0000_0000 <= factor <= 0x2_0000_0000,
    ensures
        x == along(lo, hi, factor as int),
{
    let width = hi.raw as i128 - lo.raw as i128;
    assert(-0x4_0000_0000_0000_0000 <= width * factor <= 0x4_0000_0000_0000_0000) by (nonlinear_arith)
        requires
            -0x1_0000_0000 <= width <= 0x1_0000_0000,
            -0x2_0000_0000 <= factor <= 0x2_0000_0000,
    ;
    let q = round_div_exec(width * factor, 131072);
    proof {
        crate::fixed::lemma_round_div_nearest((width * factor) as int, 131072);
    }
    Fixed::saturate(lo.raw as i128 + q)
}

/// The texture coordinate of corner `k` of `rect` after the turn.
fn turned_corner(rect: &[Fixed; 4], k: usize, sin: Fixed, cos: Fixed) -> (uv: Vec2)
    requires
        k < 4,
    ensures
        uv == spec_turned_corner(*rect, k as int, sin@, cos@),
{
    let x: i128 = if k == 0 || k == 1 {
        -1
    } else {
        1
    };
    let y: i128 = if k == 0 || k == 3 {
        -1
    } else {
        1
    };
    let s = sin.raw as i128;
    let c = cos.raw as i128;
    let uv = [
        point_along(rect[0], rect[2], 65536 + x * c - y * s),
        point_along(rect[1], rect[3], 65536 + x * s + y * c),
    ];
    assert(uv =~= spec_turned_corner(*rect, k as int, sin@, cos@));
    uv
}

/// The position of corner `k` of the face that looks in direction `d`, in
/// block space. The corners of each face run so that the face is seen
/// counterclockwise from outside.
pub open spec fn spec_face_corner(from: Vec3, to: Vec3, d: Direction, k: int) -> Vec3 {
    match d {
        Direction::Down => if k == 0 {
            [from[0], from[1], to[2]]
        } else if k == 1 {
            [from[0], from[1], from[2]]
        } else if k == 2 {
            [to[0], from[1], from[2]]
        } else {
            [to[0], from[1], to[2]]
        },
        Direction::Up => if k == 0 {
            [from[0], to[1], from[2]]
        } else if k == 1 {
            [from[0], to[1], to[2]]
        } else if k == 2 {
            [to[0], to[1], to[2]]
        } else {
            [to[0], to[1], from[2]]
        },
        Direction::North => if k == 0 {
            [to[0], to[1], from[2]]
        } else if k == 1 {
            [to[0], from[1], from[2]]
        } else if k == 2 {
            [from[0], from[1], from[2]]
        } else {
            [from[0], to[1], from[2]]
        },
        Direction::South => if k == 0 {
            [from[0], to[1], to[2]]
        } else if k == 1 {
            [from[0], from[1], to[2]]
        } else if k == 2 {
            [to[0], from[1], to[2]]
        } else {
            [to[0], to[1], to[2]]
        },
        Direction::West => if k == 0 {
            [from[0], to[1], from[2]]
        } else if k == 1 {
            [from[0], from[1], from[2]]
        } else if k == 2 {
            [from[0], from[1], to[2]]
        } else {
            [from[0], to[1], to[2]]
        },
        Direction::East => if k == 0 {
            [to[0], to[1], to[2]]
        } else if k == 1 {
            [to[0], from[1], to[2]]
        } else if k == 2 {
            [to[0], from[1], from[2]]
        } else {
            [to[0], to[1], from[2]]
        },
    }
}

/// The position of corner `k` of the face that looks in direction `d`.
pub fn face_corner(from: &Vec3, to: &Vec3, d: Direction, k: usize) -> (p: Vec3)
    requires
        k < 4,
    ensures
        p == spec_face_corner(*from, *to, d, k as int),
{
    let p = match d {
        Direction::Down => if k == 0 {
            [from[0], from[1], to[2]]
        } else if k == 1 {
            [from[0], from[1], from[2]]
        } else if k == 2 {
            [to[0], from[1], from[2]]
        } else {
            [to[0], from[1], to[2]]
        },
        Direction::Up => if k == 0 {
            [from[0], to[1], from[2]]
        } else if k == 1 {
            [from[0], to[1], to[2]]
        } else if k == 2 {
            [to[0], to[1], to[2]]
        } else {
            [to[0], to[1], from[2]]
        },
        Direction::North => if k == 0 {
            [to[0], to[1], from[2]]
        } else if k == 1 {
            [to[0], from[1], from[2]]
        } else if k == 2 {
            [from[0], from[1], from[2]]
        } else {
            [from[0], to[1], from[2]]
        },
        Direction::South => if k == 0 {
            [from[0], to[1], to[2]]
        } else if k == 1 {
            [from[0], from[1], to[2]]
        } else if k == 2 {
            [to[0], from[1], to[2]]
        } else {
            [to[0], to[1], to[2]]
        },
        Direction::West => if k == 0 {
            [from[0], to[1], from[2]]
        } else if k == 1 {
            [from[0], from[1], from[2]]
        } else if k == 2 {
            [from[0], from[1], to[2]]
        } else {
            [from[0], to[1], to[2]]
        },
        Direction::East => if k == 0 {
            [to[0], to[1], to[2]]
        } else if k == 1 {
            [to[0], from[1], to[2]]
        } else if k == 2 {
            [to[0], from[1], from[2]]
        } else {
            [to[0], to[1], from[2]]
        },
    };
    assert(p =~= spec_face_corner(*from, *to, d, k as int));
    p
}

/// The cross product of two vectors of integers.
pub open spec fn cross(a: (int, int, int), b: (int, int, int)) -> (int, int, int) {
    (a.1 * b.2 - a.2 * b.1, a.2 * b.0 - a.0 * b.2, a.0 * b.1 - a.1 * b.0)
}

/// The step from the point `p` to the point `q`, in raw units.
pub open spec fn edge(p: Vec3, q: Vec3) -> (int, int, int) {
    (q[0]@ - p[0]@, q[1]@ - p[1]@, q[2]@ - p[2]@)
}

/// The area of the face that looks in direction `d`, in raw units squared,
/// negative where the cuboid is inside out along one axis of the face.
pub open spec fn face_area(from: Vec3, to: Vec3, d: Direction) -> int {
    let w = to[0]@ - from[0]@;
    let h = to[1]@ - from[1]@;
    let l = to[2]@ - from[2]@;
    match d {
        Direction::Down | Direction::Up => w * l,
        Direction::North | Direction::South => w * h,
        Direction::West | Direction::East => l * h,
    }
}

/// The corners of every face wind about its outward normal: the cross
/// product of any two consecutive edges is the normal of the direction,
/// scaled by the area of the face.
pub proof fn lemma_winding_matches_normal(from: Vec3, to: Vec3, d: Direction, k: int)
    requires
        0 <= k < 4,
    ensures
        cross(
            edge(spec_face_corner(from, to, d, k), spec_face_corner(from, to, d, (k + 1) % 4)),
            edge(
                spec_face_corner(from, to, d, (k + 1) % 4),
                spec_face_corner(from, to, d, (k + 2) % 4),
            ),
        ) == (
            face_area(from, to, d) * d.normal().0,
            face_area(from, to, d) * d.normal().1,
            face_area(from, to, d) * d.normal().2,
        ),
{
    let w = to[0]@ - from[0]@;
    let h = to[1]@ - from[1]@;
    let l = to[2]@ - from[2]@;
    let a = spec_face_corner(from, to, d, k);
    let b = spec_face_corner(from, to, d, (k + 1) % 4);
    let c = spec_face_corner(from, to, d, (k + 2) % 4);
    let e1 = edge(a, b);
    let e2 = edge(b, c);
    let c = cross(e1, e2);
    let n = d.normal();
    let area = face_area(from, to, d);
    assert(area * n.0 == (if n.0 == 0 {
        0
    } else if n.0 == 1 {
        area
    } else {
        -area
    })) by (nonlinear_arith)
        requires
            n.0 == 0 || n.0 == 1 || n.0 == -1,
    ;
    assert(area * n.1 == (if n.1 == 0 {
        0
    } else if n.1 == 1 {
        area
    } else {
        -area
    })) by (nonlinear_arith)
        requires
            n.1 == 0 || n.1 == 1 || n.1 == -1,
    ;
    assert(area * n.2 == (if n.2 == 0 {
        0
    } else if n.2 == 1 {
        area
    } else {
        -area
    })) by (nonlinear_arith)
        requires
            n.2 == 0 || n.2 == 1 || n.2 == -1,
    ;
    match d {
        Direction::Down => {
            assert(n == (0int, -1int, 0int));
            assert(area == w * l);
            if k == 0 {
                assert(e1 == (0int, 0int, -l));
                assert(e2 == (w, 0int, 0int));
                assert(c.0 == 0 && c.1 == -(w * l) && c.2 == 0) by (nonlinear_arith)
                    requires
                        c.0 == (0) * (0) - (-l) * (0),
                        c.1 == (-l) * (w) - (0) * (0),
                        c.2 == (0) * (0) - (0) * (w),
                ;
            }
            if k == 1 {
                assert(e1 == (w, 0int, 0int));
                assert(e2 == (0int, 0int, l));
                assert(c.0 == 0 && c.1 == -(w * l) && c.2 == 0) by (nonlinear_arith)
                    requires
                        c.0 == (0) * (l) - (0) * (0),
                        c.1 == (0) * (0) - (w) * (l),
                        c.2 == (w) * (0) - (0) * (0),
                ;
            }
            if k == 2 {
                assert(e1 == (0int, 0int, l));
                assert(e2 == (-w, 0int, 0int));
                assert(c.0 == 0 && c.1 == -(w * l) && c.2 == 0) by (nonlinear_arith)
                    requires
                        c.0 == (0) * (0) - (l) * (0),
                        c.1 == (l) * (-w) - (0) * (0),
                        c.2 == (0) * (0) - (0) * (-w),
                ;
            }
            if k == 3 {
                assert(e1 == (-w, 0int, 0int));
                assert(e2 == (0int, 0int, -l));
                assert(c.0 == 0 && c.1 == -(w * l) && c.2 == 0) by (nonlinear_arith)
                    requires
                        c.0 == (0) * (-l) - (0) * (0),
                        c.1 == (0) * (0) - (-w) * (-l),
                        c.2 == (-w) * (0) - (0) * (0),
                ;
            }
        },
        Direction::Up => {
            assert(n == (0int, 1int, 0int));
            assert(area == w * l);
            if k == 0 {
                assert(e1 == (0int, 0int, l));
                assert(e2 == (w, 0int, 0int));
                assert(c.0 == 0 && c.1 == w * l && c.2 == 0) by (nonlinear_arith)
                    requires
                        c.0 == (0) * (0) - (l) * (0),
                        c.1 == (l) * (w) - (0) * (0),
                        c.2 == (0) * (0) - (0) * (w),
                ;
            }
            if k == 1 {
                assert(e1 == (w, 0int, 0int));
                assert(e2 == (0int, 0int, -l));
                assert(c.0 == 0 && c.1 == w * l && c.2 == 0) by (nonlinear_arith)
                    requires
                        c.0 == (0) * (-l) - (0) * (0),
                        c.1 == (0) * (0) - (w) * (-l),
                        c.2 == (w) * (0) - (0) * (0),
                ;
            }
            if k == 2 {
                assert(e1 == (0int, 0int, -l));
                assert(e2 == (-w, 0int, 0int));
                assert(c.0 == 0 && c.1 == w * l && c.2 == 0) by (nonlinear_arith)
                    requires
                        c.0 == (0) * (0) - (-l) * (0),
                        c.1 == (-l) * (-w) - (0) * (0),
                        c.2 == (0) * (0) - (0) * (-w),
                ;
            }
            if k == 3 {
                assert(e1 == (-w, 0int, 0int));
                assert(e2 == (0int, 0int, l));
                assert(c.0 == 0 && c.1 == w * l && c.2 == 0) by (nonlinear_arith)
                    requires
                        c.0 == (0) * (l) - (0) * (0),
                        c.1 == (0) * (0) - (-w) * (l),
                        c.2 == (-w) * (0) - (0) * (0),
                ;
            }
        },
        Direction::North => {
            assert(n == (0int, 0int, -1int));
            assert(area == w * h);
            if k == 0 {
                assert(e1 == (0int, -h, 0int));
                assert(e2 == (-w, 0int, 0int));
                assert(c.0 == 0 && c.1 == 0 && c.2 == -(w * h)) by (nonlinear_arith)
                    requires
                        c.0 == (-h) * (0) - (0) * (0),
                        c.1 == (0) * (-w) - (0) * (0),
                        c.2 == (0) * (0) - (-h) * (-w),
                ;
            }
            if k == 1 {
                assert(e1 == (-w, 0int, 0int));
                assert(e2 == (0int, h, 0int));
                assert(c.0 == 0 && c.1 == 0 && c.2 == -(w * h)) by (nonlinear_arith)
                    requires
                        c.0 == (0) * (0) - (0) * (h),
                        c.1 == (0) * (0) - (-w) * (0),
                        c.2 == (-w) * (h) - (0) * (0),
                ;
            }
            if k == 2 {
                assert(e1 == (0int, h, 0int));
                assert(e2 == (w, 0int, 0int));
                assert(c.0 == 0 && c.1 == 0 && c.2 == -(w * h)) by (nonlinear_arith)
                    requires
                        c.0 == (h) * (0) - (0) * (0),
                        c.1 == (0) * (w) - (0) * (0),
                        c.2 == (0) * (0) - (h) * (w),
                ;
            }
            if k == 3 {
                assert(e1 == (w, 0int, 0int));
                assert(e2 == (0int, -h, 0int));
                assert(c.0 == 0 && c.1 == 0 && c.2 == -(w * h)) by (nonlinear_arith)
                    requires
                        c.0 == (0) * (0) - (0) * (-h),
                        c.1 == (0) * (0) - (w) * (0),
                        c.2 == (w) * (-h) - (0) * (0),
                ;
            }
        },
        Direction::South => {
            assert(n == (0int, 0int, 1int));
            assert(area == w * h);
            if k == 0 {
                assert(e1 == (0int, -h, 0int));
                assert(e2 == (w, 0int, 0int));
                assert(c.0 == 0 && c.1 == 0 && c.2 == w * h) by (nonlinear_arith)
                    requires
                        c.0 == (-h) * (0) - (0) * (0),
                        c.1 == (0) * (w) - (0) * (0),
                        c.2 == (0) * (0) - (-h) * (w),
                ;
            }
            if k == 1 {
                assert(e1 == (w, 0int, 0int));
                assert(e2 == (0int, h, 0int));
                assert(c.0 == 0 && c.1 == 0 && c.2 == w * h) by (nonlinear_arith)
                    requires
                        c.0 == (0) * (0) - (0) * (h),
                        c.1 == (0) * (0) - (w) * (0),
                        c.2 == (w) * (h) - (0) * (0),
                ;
            }
            if k == 2 {
                assert(e1 == (0int, h, 0int));
                assert(e2 == (-w, 0int, 0int));
                assert(c.0 == 0 && c.1 == 0 && c.2 == w * h) by (nonlinear_arith)
                    requires
                        c.0 == (h) * (0) - (0) * (0),
                        c.1 == (0) * (-w) - (0) * (0),
                        c.2 == (0) * (0) - (h) * (-w),
                ;
            }
            if k == 3 {
                assert(e1 == (-w, 0int, 0int));
                assert(e2 == (0int, -h, 0int));
                assert(c.0 == 0 && c.1 == 0 && c.2 == w * h) by (nonlinear_arith)
                    requires
                        c.0 == (0) * (0) - (0) * (-h),
                        c.1 == (0) * (0) - (-w) * (0),
                        c.2 == (-w) * (-h) - (0) * (0),
                ;
            }
        },
        Direction::West => {
            assert(n == (-1int, 0int, 0int));
            assert(area == l * h);
            if k == 0 {
                assert(e1 == (0int, -h, 0int));
                assert(e2 == (0int, 0int, l));
                assert(c.0 == -(l * h) && c.1 == 0 && c.2 == 0) by (nonlinear_arith)
                    requires
                        c.0 == (-h) * (l) - (0) * (0),
                        c.1 == (0) * (0) - (0) * (l),
                        c.2 == (0) * (0) - (-h) * (0),
                ;
            }
            if k == 1 {
                assert(e1 == (0int, 0int, l));
                assert(e2 == (0int, h, 0int));
                assert(c.0 == -(l * h) && c.1 == 0 && c.2 == 0) by (nonlinear_arith)
                    requires
                        c.0 == (0) * (0) - (l) * (h),
                        c.1 == (l) * (0) - (0) * (0),
                        c.2 == (0) * (h) - (0) * (0),
                ;
            }
            if k == 2 {
                assert(e1 == (0int, h, 0int));
                assert(e2 == (0int, 0int, -l));
                assert(c.0 == -(l * h) && c.1 == 0 && c.2 == 0) by (nonlinear_arith)
                    requires
                        c.0 == (h) * (-l) - (0) * (0),
                        c.1 == (0) * (0) - (0) * (-l),
                        c.2 == (0) * (0) - (h) * (0),
                ;
            }
            if k == 3 {
                assert(e1 == (0int, 0int, -l));
                assert(e2 == (0int, -h, 0int));
                assert(c.0 == -(l * h) && c.1 == 0 && c.2 == 0) by (nonlinear_arith)
                    requires
                        c.0 == (0) * (0) - (-l) * (-h),
                        c.1 == (-l) * (0) - (0) * (0),
                        c.2 == (0) * (-h) - (0) * (0),
                ;
            }
        },
        Direction::East => {
            assert(n == (1int, 0int, 0int));
            assert(area == l * h);
            if k == 0 {
                assert(e1 == (0int, -h, 0int));
                assert(e2 == (0int, 0int, -l));
                assert(c.0 == l * h && c.1 == 0 && c.2 == 0) by (nonlinear_arith)
                    requires
                        c.0 == (-h) * (-l) - (0) * (0),
                        c.1 == (0) * (0) - (0) * (-l),
                        c.2 == (0) * (0) - (-h) * (0),
                ;
            }
            if k == 1 {
                assert(e1 == (0int, 0int, -l));
                assert(e2 == (0int, h, 0int));
                assert(c.0 == l * h && c.1 == 0 && c.2 == 0) by (nonlinear_arith)
                    requires
                        c.0 == (0) * (0) - (-l) * (h),
                        c.1 == (-l) * (0) - (0) * (0),
                        c.2 == (0) * (h) - (0) * (0),
                ;
            }
            if k == 2 {
                assert(e1 == (0int, h, 0int));
                assert(e2 == (0int, 0int, l));
                assert(c.0 == l * h && c.1 == 0 && c.2 == 0) by (nonlinear_arith)
                    requires
                        c.0 == (h) * (l) - (0) * (0),
                        c.1 == (0) * (0) - (0) * (l),
                        c.2 == (0) * (0) - (h) * (0),
                ;
            }
            if k == 3 {
                assert(e1 == (0int, 0int, l));
                assert(e2 == (0int, -h, 0int));
                assert(c.0 == l * h && c.1 == 0 && c.2 == 0) by (nonlinear_arith)
                    requires
                        c.0 == (0) * (0) - (l) * (-h),
                        c.1 == (l) * (0) - (0) * (0),
                        c.2 == (0) * (-h) - (0) * (0),
                ;
            }
        },
    }
}

/// A position brought from block space into the unit cube.
pub open spec fn spec_adjust_pos(v: Vec3) -> Vec3 {
    [v[0].spec_div16(), v[1].spec_div16(), v[2].spec_div16()]
}

/// A texture coordinate brought from 0 to 16 into the unit square.
pub open spec fn spec_adjust_pos2(v: Vec2) -> Vec2 {
    [v[0].spec_div16(), v[1].spec_div16()]
}

/// A position brought from block space into the unit cube.
fn adjust_pos(v: Vec3) -> (r: Vec3)
    ensures
        r == spec_adjust_pos(v),
{
    let r = [v[0].div16(), v[1].div16(), v[2].div16()];
    assert(r =~= spec_adjust_pos(v));
    r
}

/// A texture coordinate brought from 0 to 16 into the unit square.
fn adjust_pos2(v: Vec2) -> (r: Vec2)
    ensures
        r == spec_adjust_pos2(v),
{
    let r = [v[0].div16(), v[1].div16()];
    assert(r =~= spec_adjust_pos2(v));
    r
}

/// The texture rectangle of a face: the one it states, or the default one.
pub open spec fn face_rect(cube: Cube, d: Direction, face: Face) -> [Fixed; 4] {
    match face.uv {
        Some(rect) => rect,
        None => spec_default_uv(cube.from, cube.to, d),
    }
}

/// Corner `k` of the quad of a face.
pub open spec fn spec_vertex(cube: Cube, d: Direction, face: Face, k: int) -> Vertex {
    let turn = spec_unit_rotation(face.rotation);
    Vertex {
        xyz: spec_adjust_pos(spec_face_corner(cube.from, cube.to, d, k)),
        uv: spec_adjust_pos2(spec_turned_corner(face_rect(cube, d, face), k, turn.0, turn.1)),
    }
}

/// The quad of a face, or the name of the reference at which its texture
/// slot ends.
#[verifier::opaque]
pub open spec fn spec_face_quad(
    cube: Cube,
    d: Direction,
    face: Face,
    textures: Map<Seq<char>, TextureRefView>,
) -> Result<QuadView, QuadifyErrorView> {
    match resolve_spec(face.texture@, textures) {
        TextureRefView::Literal(id) => Ok(
            QuadView {
                texture: id,
                vertices: [
                    spec_vertex(cube, d, face, 0),
                    spec_vertex(cube, d, face, 1),
                    spec_vertex(cube, d, face, 2),
                    spec_vertex(cube, d, face, 3),
                ],
                normal: d.spec_vector(),
                color_index: face.spec_tintindex(),
                cull_face: face.cullface,
            },
        ),
        TextureRefView::Reference(name) => Err(QuadifyErrorView::UnresolvedTexture(name)),
    }
}

/// `acc` followed by the quads of `rest`, or the error of `rest`.
pub open spec fn prepend(acc: Seq<QuadView>, rest: Result<Seq<QuadView>, QuadifyErrorView>) -> Result<
    Seq<QuadView>,
    QuadifyErrorView,
> {
    match rest {
        Ok(quads) => Ok(acc + quads),
        Err(e) => Err(e),
    }
}

/// The quads of some faces of a cuboid, in their order, or the error of the
/// first face that has one.
pub open spec fn faces_quads(
    cube: Cube,
    faces: Seq<(Direction, Face)>,
    textures: Map<Seq<char>, TextureRefView>,
) -> Result<Seq<QuadView>, QuadifyErrorView>
    decreases faces.len(),
{
    if faces.len() == 0 {
        Ok(Seq::empty())
    } else {
        match spec_face_quad(cube, faces[0].0, faces[0].1, textures) {
            Ok(quad) => prepend(seq![quad], faces_quads(cube, faces.drop_first(), textures)),
            Err(e) => Err(e),
        }
    }
}

/// The quads of a list of cuboids: cuboid by cuboid in the order of the
/// list, within a cuboid in the order down, up, north, south, west, east;
/// or the error of the first face that has one.
pub open spec fn cubes_quads(cubes: Seq<Cube>, textures: Map<Seq<char>, TextureRefView>) -> Result<
    Seq<QuadView>,
    QuadifyErrorView,
>
    decreases cubes.len(),
{
    if cubes.len() == 0 {
        Ok(Seq::empty())
    } else {
        match faces_quads(cubes[0], cubes[0].faces.present(), textures) {
            Ok(quads) => prepend(quads, cubes_quads(cubes.drop_first(), textures)),
            Err(e) => Err(e),
        }
    }
}

/// Corner `k` of the quad of a face.
fn vertex(cube: &Cube, d: Direction, rect: &[Fixed; 4], turn: (Fixed, Fixed), k: usize) -> (v: Vertex)
    requires
        k < 4,
    ensures
        v.xyz == spec_adjust_pos(spec_face_corner(cube.from, cube.to, d, k as int)),
        v.uv == spec_adjust_pos2(spec_turned_corner(*rect, k as int, turn.0@, turn.1@)),
{
    Vertex {
        xyz: adjust_pos(face_corner(&cube.from, &cube.to, d, k)),
        uv: adjust_pos2(turned_corner(rect, k, turn.0, turn.1)),
    }
}

/// Lowers one face of a cuboid to its quad. Fails where the texture slot of
/// the face does not resolve to a literal.
pub fn face_quad(cube: &Cube, d: Direction, face: &Face, textures: &TextureMap) -> (r: Result<
    Quad,
    QuadifyError,
>)
    ensures
        match r {
            Ok(quad) => spec_face_quad(*cube, d, *face, textures@) == Ok::<
                QuadView,
                QuadifyErrorView,
            >(quad@),
            Err(e) => spec_face_quad(*cube, d, *face, textures@) == Err::<
                QuadView,
                QuadifyErrorView,
            >(e@),
        },
{
    let rect = match face.uv {
        Some(rect) => rect,
        None => default_uv(&cube.from, &cube.to, d),
    };
    let turn = unit_rotation(face.rotation);
    let vertices = [
        vertex(cube, d, &rect, turn, 0),
        vertex(cube, d, &rect, turn, 1),
        vertex(cube, d, &rect, turn, 2),
        vertex(cube, d, &rect, turn, 3),
    ];
    match face.texture.clone().resolve(textures) {
        TextureRef::Literal(texture) => {
            let quad = Quad {
                texture,
                vertices,
                normal: d.vector(),
                color_index: face.tintindex(),
                cull_face: face.cullface,
            };
            proof {
                reveal(spec_face_quad);
                let expected = spec_face_quad(*cube, d, *face, textures@)->Ok_0;
                assert(quad@.vertices =~= expected.vertices);
            }
            Ok(quad)
        },
        TextureRef::Reference(name) => {
            proof {
                reveal(spec_face_quad);
            }
            Err(QuadifyError::UnresolvedTexture(name))
        },
    }
}

/// Appends the quads of one cuboid to `quads`.
fn cube_quads(cube: &Cube, textures: &TextureMap, quads: &mut Vec<Quad>) -> (r: Result<
    (),
    QuadifyError,
>)
    ensures
        match r {
            Ok(_) => prepend(
                quad_views(old(quads)@),
                faces_quads(*cube, cube.faces.present(), textures@),
            ) == Ok::<Seq<QuadView>, QuadifyErrorView>(quad_views(final(quads)@)),
            Err(e) => faces_quads(*cube, cube.faces.present(), textures@) == Err::<
                Seq<QuadView>,
                QuadifyErrorView,
            >(e@),
        },
{
    let mut it = cube.faces.iter();
    let ghost start = quad_views(quads@);
    let ghost mut acc: Seq<QuadView> = Seq::empty();
    proof {
        assert(start + acc =~= start);
        assert(Seq::<QuadView>::empty() + faces_quads(*cube, it.remaining(), textures@)->Ok_0
            =~= faces_quads(*cube, it.remaining(), textures@)->Ok_0);
    }
    loop
        invariant
            start == quad_views(old(quads)@),
            quad_views(quads@) == start + acc,
            prepend(acc, faces_quads(*cube, it.remaining(), textures@)) == faces_quads(
                *cube,
                cube.faces.present(),
                textures@,
            ),
        decreases it.remaining().len(),
    {
        let ghost rest = it.remaining();
        match it.next() {
            None => {
                proof {
                    assert(acc + Seq::<QuadView>::empty() =~= acc);
                }
                return Ok(());
            },
            Some((d, face)) => {
                match face_quad(cube, d, face, textures) {
                    Err(e) => {
                        return Err(e);
                    },
                    Ok(quad) => {
                        proof {
                            let tail = faces_quads(*cube, rest.drop_first(), textures@);
                            if tail is Ok {
                                assert(acc + (seq![quad@] + tail->Ok_0) =~= acc.push(quad@)
                                    + tail->Ok_0);
                            }
                            assert(quad_views(quads@.push(quad)) =~= quad_views(quads@).push(quad@));
                            acc = acc.push(quad@);
                        }
                        quads.push(quad);
                        assert(quad_views(quads@) =~= start + acc);
                    },
                }
            },
        }
    }
}

/// Lowers a list of cuboids to one mesh. The quads come cuboid by cuboid in
/// the order of the list, and within a cuboid in the order down, up, north,
/// south, west, east of the faces that are present. Fails with the name of
/// the reference at which the first texture slot that does not resolve ends.
pub fn cubes_to_mesh(cubes: &[Cube], textures: &TextureMap) -> (r: Result<Mesh, QuadifyError>)
    ensures
        match r {
            Ok(mesh) => cubes_quads(cubes@, textures@) == Ok::<Seq<QuadView>, QuadifyErrorView>(
                mesh@,
            ),
            Err(e) => cubes_quads(cubes@, textures@) == Err::<Seq<QuadView>, QuadifyErrorView>(e@),
        },
{
    let mut quads: Vec<Quad> = Vec::new();
    let mut i: usize = 0;
    proof {
        assert(cubes@.skip(0) =~= cubes@);
        let all = cubes_quads(cubes@, textures@);
        if all is Ok {
            assert(quad_views(quads@) + all->Ok_0 =~= all->Ok_0);
        }
    }
    while i < cubes.len()
        invariant
            i <= cubes@.len(),
            prepend(quad_views(quads@), cubes_quads(cubes@.skip(i as int), textures@)) == cubes_quads(
                cubes@,
                textures@,
            ),
        decreases cubes@.len() - i,
    {
        let ghost before = quad_views(quads@);
        let ghost rest = cubes@.skip(i as int);
        proof {
            assert(rest[0] == cubes@[i as int]);
            assert(rest.drop_first() =~= cubes@.skip(i + 1));
        }
        match cube_quads(&cubes[i], textures, &mut quads) {
            Err(e) => {
                return Err(e);
            },
            Ok(_) => {
                proof {
                    let own = faces_quads(cubes@[i as int], cubes@[i as int].faces.present(), textures@)->Ok_0;
                    let tail = cubes_quads(cubes@.skip(i + 1), textures@);
                    if tail is Ok {
                        assert(before + (own + tail->Ok_0) =~= (before + own) + tail->Ok_0);
                    }
                }
            },
        }
        i += 1;
    }
    proof {
        assert(quad_views(quads@) + Seq::<QuadView>::empty() =~= quad_views(quads@));
    }
    Ok(Mesh { quads })
}

/// A cuboid with all six faces, each with a literal texture, gives six
/// quads, one for each direction in the fixed order, each with the normal
/// of its direction and the texture of its face; the six normals differ from
/// one another.
pub proof fn lemma_full_cube_six_quads(cube: Cube, textures: Map<Seq<char>, TextureRefView>)
    requires
        forall|d: Direction| (#[trigger] cube.faces.face(d)) matches Some(f) && f.texture is Literal,
    ensures
        cubes_quads(seq![cube], textures) matches Ok(quads) && quads.len() == 6 && (forall|i: int|
            0 <= i < 6 ==> (#[trigger] quads[i]).normal == direction_at(i).spec_vector()
                && TextureRefView::Literal(quads[i].texture) == cube.faces.face(
                direction_at(i),
            )->Some_0.texture@),
        forall|i: int, j: int|
            0 <= i < j < 6 ==> direction_at(i).spec_vector() != direction_at(j).spec_vector(),
{
    reveal(spec_face_quad);
    reveal_with_fuel(crate::vanilla::model::Faces::present_from, 7);
    let faces = cube.faces.present();
    assert(cube.faces.face(Direction::Down) is Some);
    assert(cube.faces.face(Direction::Up) is Some);
    assert(cube.faces.face(Direction::North) is Some);
    assert(cube.faces.face(Direction::South) is Some);
    assert(cube.faces.face(Direction::West) is Some);
    assert(cube.faces.face(Direction::East) is Some);
    assert(faces.len() == 6);
    assert forall|i: int| 0 <= i < 6 implies (#[trigger] faces[i]).0 == direction_at(i) && Some(
        faces[i].1,
    ) == cube.faces.face(direction_at(i)) by {}
    lemma_faces_quads_all_literal(cube, faces, textures);
    assert(seq![cube].drop_first() =~= Seq::<Cube>::empty());
    let quads = faces_quads(cube, faces, textures)->Ok_0;
    assert(quads + Seq::<QuadView>::empty() =~= quads);
    let cubes = seq![cube];
    assert(cubes[0] == cube);
    assert(cubes_quads(cubes.drop_first(), textures) == Ok::<Seq<QuadView>, QuadifyErrorView>(
        Seq::empty(),
    ));
    assert(cubes_quads(cubes, textures) == Ok::<Seq<QuadView>, QuadifyErrorView>(quads));
    assert forall|i: int| 0 <= i < 6 implies (#[trigger] quads[i]).normal == direction_at(
        i,
    ).spec_vector() && TextureRefView::Literal(quads[i].texture) == cube.faces.face(
        direction_at(i),
    )->Some_0.texture@ by {
        assert(faces[i].0 == direction_at(i));
    }
    assert forall|i: int, j: int| 0 <= i < j < 6 implies direction_at(i).spec_vector()
        != direction_at(j).spec_vector() by {
        let a = direction_at(i).spec_vector();
        let b = direction_at(j).spec_vector();
        assert(a[0] != b[0] || a[1] != b[1] || a[2] != b[2]);
    }
}

/// Faces with literal textures give one quad each, in their order.
proof fn lemma_faces_quads_all_literal(
    cube: Cube,
    faces: Seq<(Direction, Face)>,
    textures: Map<Seq<char>, TextureRefView>,
)
    requires
        forall|i: int| 0 <= i < faces.len() ==> (#[trigger] faces[i]).1.texture is Literal,
    ensures
        faces_quads(cube, faces, textures) matches Ok(quads) && quads.len() == faces.len() && (
        forall|i: int|
            0 <= i < faces.len() ==> (#[trigger] quads[i]).normal == faces[i].0.spec_vector()
                && TextureRefView::Literal(quads[i].texture) == faces[i].1.texture@),
    decreases faces.len(),
{
    reveal(spec_face_quad);
    if faces.len() > 0 {
        let rest = faces.drop_first();
        assert(faces[0].1.texture is Literal);
        assert forall|i: int| 0 <= i < rest.len() implies (#[trigger] rest[i]).1.texture is Literal by {
            assert(rest[i] == faces[i + 1]);
        }
        lemma_faces_quads_all_literal(cube, rest, textures);
        let first = spec_face_quad(cube, faces[0].0, faces[0].1, textures)->Ok_0;
        let more = faces_quads(cube, rest, textures)->Ok_0;
        let quads = faces_quads(cube, faces, textures)->Ok_0;
        assert(quads == seq![first] + more);
        assert forall|i: int| 0 <= i < faces.len() implies (#[trigger] quads[i]).normal
            == faces[i].0.spec_vector() && TextureRefView::Literal(quads[i].texture)
            == faces[i].1.texture@ by {
            if i > 0 {
                assert(quads[i] == more[i - 1]);
                assert(rest[i - 1] == faces[i]);
            }
        }
    }
}

} // verus!
