//! Vertices of shapes of unit half extent, in whole numbers, and the facing of
//! the triangles drawn over them.

use vstd::prelude::*;

verus! {

/// A vertex of a shape whose half extents are the unit. The position counts
/// half extents along each axis, so the application stretches a shape by
/// multiplying each component by half its width, height or depth. Normal,
/// texture coordinates and colour are whole numbers as they stand.
#[derive(Clone, Copy, Debug, PartialEq, Eq)]
pub struct UnitVertex {
    pub position: (i8, i8, i8),
    pub normal: (i8, i8, i8),
    pub uv: (u8, u8),
    pub color: (u8, u8, u8),
}

/// A vector of three integers.
pub type Int3 = (int, int, int);

/// A vector of three real numbers.
pub type Real3 = (real, real, real);

/// The components of `v` as integers.
pub open spec fn ints(v: (i8, i8, i8)) -> Int3 {
    (v.0 as int, v.1 as int, v.2 as int)
}

/// The components of `v` as real numbers.
pub open spec fn reals(v: Int3) -> Real3 {
    (v.0 as real, v.1 as real, v.2 as real)
}

/// `a - b`, component by component.
pub open spec fn difference(a: Real3, b: Real3) -> Real3 {
    (a.0 - b.0, a.1 - b.1, a.2 - b.2)
}

/// The cross product `a x b`.
pub open spec fn cross(a: Real3, b: Real3) -> Real3 {
    (a.1 * b.2 - a.2 * b.1, a.2 * b.0 - a.0 * b.2, a.0 * b.1 - a.1 * b.0)
}

/// `v` with each component multiplied by the half extent of its axis: where
/// the vertex at `v` lies once the shape has its true size.
pub open spec fn stretched(v: Int3, half: Real3) -> Real3 {
    ((v.0 as real) * half.0, (v.1 as real) * half.1, (v.2 as real) * half.2)
}

/// Whether `v` is `n` multiplied by a positive number.
pub open spec fn points_along(v: Real3, n: Int3) -> bool {
    exists|k: real| k > 0 as real && #[trigger] scaled(k, n) == v
}

/// `n` multiplied by `k`.
pub open spec fn scaled(k: real, n: Int3) -> Real3 {
    (k * (n.0 as real), k * (n.1 as real), k * (n.2 as real))
}

/// The direction that the triangle `a`, `b`, `c` faces when its corners are
/// seen to run counter-clockwise: `(b - a) x (c - a)`.
pub open spec fn facing(a: Real3, b: Real3, c: Real3) -> Real3 {
    cross(difference(b, a), difference(c, a))
}

/// Whether triangle number `t` of `indices` faces the way its corners' normals
/// point, once the shape is stretched to the half extents `half`: the three
/// corners carry one normal, and seen from the side that the normal points to
/// they run counter-clockwise.
pub open spec fn triangle_faces_out(
    vertices: Seq<UnitVertex>,
    indices: Seq<u16>,
    t: int,
    half: Real3,
) -> bool {
    let a = vertices[indices[3 * t] as int];
    let b = vertices[indices[3 * t + 1] as int];
    let c = vertices[indices[3 * t + 2] as int];
    &&& a.normal == b.normal
    &&& a.normal == c.normal
    &&& points_along(
        facing(
            stretched(ints(a.position), half),
            stretched(ints(b.position), half),
            stretched(ints(c.position), half),
        ),
        ints(a.normal),
    )
}

/// Whether every half extent of `half` is positive.
pub open spec fn positive(half: Real3) -> bool {
    half.0 > 0 as real && half.1 > 0 as real && half.2 > 0 as real
}

/// Whether every triangle of `indices` faces out at the half extents `half`.
pub open spec fn faces_out(vertices: Seq<UnitVertex>, indices: Seq<u16>, half: Real3) -> bool {
    forall|t: int| 0 <= t < indices.len() / 3 ==> #[trigger] triangle_faces_out(vertices, indices, t, half)
}

/// The normals that occur among `vertices`.
pub open spec fn normals(vertices: Seq<UnitVertex>) -> Set<(i8, i8, i8)> {
    Set::new(|n: (i8, i8, i8)| exists|i: int| 0 <= i < vertices.len() && #[trigger] vertices[i].normal == n)
}

/// The positions in `vertices` of those that carry the normal `n`.
pub open spec fn carriers(vertices: Seq<UnitVertex>, n: (i8, i8, i8)) -> Set<int> {
    Set::new(|i: int| 0 <= i < vertices.len() && vertices[i].normal == n)
}

/// Where corner `corner` of a face lies along the face's right and up
/// directions. The corners run counter-clockwise from the lower left.
pub open spec fn corner_offset(corner: int) -> (int, int) {
    if corner == 0 {
        (-1, -1)
    } else if corner == 1 {
        (1, -1)
    } else if corner == 2 {
        (1, 1)
    } else {
        (-1, 1)
    }
}

/// The texture coordinates of a corner at `offset`: the first grows to the
/// right, the second downwards.
pub open spec fn corner_uv(offset: (int, int)) -> (u8, u8) {
    (((offset.0 + 1) / 2) as u8, ((1 - offset.1) / 2) as u8)
}

/// `v` where `sign` is positive, `-v` where it is not.
pub open spec fn toward(sign: int, v: Int3) -> Int3 {
    if sign > 0 {
        v
    } else {
        (-v.0, -v.1, -v.2)
    }
}

/// The corner at `at` of the face about `center` with right `r` and up `u`:
/// one step each way along right and up.
pub open spec fn face_corner(center: Int3, r: Int3, u: Int3, at: (int, int)) -> Int3 {
    let across = toward(at.0, r);
    let along = toward(at.1, u);
    (center.0 + across.0 + along.0, center.1 + across.1 + along.1, center.2 + across.2 + along.2)
}

/// Corner number `within % 6` takes of a face's four, where each face is the
/// two triangles 0 1 2 and 0 2 3.
pub open spec fn quad_corner(within: int) -> int {
    let k = within % 6;
    if k == 0 || k == 3 {
        0
    } else if k == 1 {
        1
    } else if k == 5 {
        3
    } else {
        2
    }
}

/// Whether `n` is one step along one axis, either way.
pub open spec fn is_axis(n: Int3) -> bool {
    ||| (n.0 == 1 || n.0 == -1) && n.1 == 0 && n.2 == 0
    ||| n.0 == 0 && (n.1 == 1 || n.1 == -1) && n.2 == 0
    ||| n.0 == 0 && n.1 == 0 && (n.2 == 1 || n.2 == -1)
}

/// Products of stretched numbers, with the stretches taken out.
proof fn lemma_stretches_out(a: real, b: real, h: real, k: real)
    ensures
        (a * h) * (b * k) == (h * k) * (a * b),
        (a * k) * (b * h) == (h * k) * (a * b),
{
    assert((a * h) * (b * k) == (h * k) * (a * b)) by (nonlinear_arith);
    assert((a * k) * (b * h) == (h * k) * (a * b)) by (nonlinear_arith);
}

/// A common factor taken out of a difference.
proof fn lemma_factor_out(x: real, b: real, c: real)
    ensures
        x * b - x * c == x * (b - c),
{
    assert(x * b - x * c == x * (b - c)) by (nonlinear_arith);
}

/// Four taken out of a product.
proof fn lemma_four_out(x: real, y: real)
    ensures
        x * ((4 as real) * y) == (4 as real) * x * y,
{
    assert(x * ((4 as real) * y) == (4 as real) * x * y) by (nonlinear_arith);
}

/// One component of twice `r` crossed with twice `r + u`: four times that
/// component of `r x u`.
proof fn lemma_first_cross(p: real, q: real, s: real, t: real)
    ensures
        ((2 as real) * p) * ((2 as real) * q + (2 as real) * t) - ((2 as real) * q) * ((2 as real) * p + (
        2 as real) * s) == (4 as real) * (p * t - q * s),
{
    assert(((2 as real) * p) * ((2 as real) * q + (2 as real) * t) - ((2 as real) * q) * ((2 as real) * p + (
    2 as real) * s) == (4 as real) * (p * t - q * s)) by (nonlinear_arith);
}

/// One component of twice `r + u` crossed with twice `u`: four times that
/// component of `r x u`.
proof fn lemma_second_cross(p: real, q: real, s: real, t: real)
    ensures
        ((2 as real) * p + (2 as real) * s) * ((2 as real) * t) - ((2 as real) * q + (2 as real) * t) * ((
        2 as real) * s) == (4 as real) * (p * t - q * s),
{
    assert(((2 as real) * p + (2 as real) * s) * ((2 as real) * t) - ((2 as real) * q + (2 as real) * t) * ((
    2 as real) * s) == (4 as real) * (p * t - q * s)) by (nonlinear_arith);
}

/// One component of the facing of a triangle whose sides, before they are
/// stretched by `h` and `k`, are twice `r` and twice `r + u`, or twice `r + u`
/// and twice `u`: four times that component of `r x u`, stretched.
proof fn lemma_quad_term(p: real, q: real, s: real, t: real, h: real, k: real)
    ensures
        ((2 as real) * p * h) * (((2 as real) * q + (2 as real) * t) * k) - ((2 as real) * q * k) * (((
        2 as real) * p + (2 as real) * s) * h) == (4 as real) * (h * k) * (p * t - q * s),
        (((2 as real) * p + (2 as real) * s) * h) * ((2 as real) * t * k) - (((2 as real) * q + (2 as real)
            * t) * k) * ((2 as real) * s * h) == (4 as real) * (h * k) * (p * t - q * s),
{
    let a = (2 as real) * p;
    let b = (2 as real) * q + (2 as real) * t;
    let c = (2 as real) * q;
    let d = (2 as real) * p + (2 as real) * s;
    let e = (2 as real) * t;
    let f = (2 as real) * s;
    lemma_stretches_out(a, b, h, k);
    lemma_stretches_out(c, d, h, k);
    lemma_factor_out(h * k, a * b, c * d);
    lemma_first_cross(p, q, s, t);
    lemma_stretches_out(d, e, h, k);
    lemma_stretches_out(b, f, h, k);
    lemma_factor_out(h * k, d * e, b * f);
    lemma_second_cross(p, q, s, t);
    lemma_four_out(h * k, p * t - q * s);
}

/// One component of the three sides that leave corner 0 of a face, stretched
/// by `h`: towards corner 1 twice the right, towards corner 2 twice right
/// plus up, towards corner 3 twice the up.
proof fn lemma_quad_side(c: int, r: int, u: int, h: real)
    ensures
        ((c + r - u) as real) * h - ((c - r - u) as real) * h == (2 as real) * (r as real) * h,
        ((c + r + u) as real) * h - ((c - r - u) as real) * h == ((2 as real) * (r as real) + (2 as real) * (
        u as real)) * h,
        ((c - r + u) as real) * h - ((c - r - u) as real) * h == (2 as real) * (u as real) * h,
{
    let cr = c as real;
    let rr = r as real;
    let ur = u as real;
    assert((c + r - u) as real == cr + rr - ur);
    assert((c + r + u) as real == cr + rr + ur);
    assert((c - r + u) as real == cr - rr + ur);
    assert((c - r - u) as real == cr - rr - ur);
    assert((cr + rr - ur) * h - (cr - rr - ur) * h == (2 as real) * rr * h) by (nonlinear_arith);
    assert((cr + rr + ur) * h - (cr - rr - ur) * h == ((2 as real) * rr + (2 as real) * ur) * h)
        by (nonlinear_arith);
    assert((cr - rr + ur) * h - (cr - rr - ur) * h == (2 as real) * ur * h) by (nonlinear_arith);
}

/// Four times a vector along the axis `n`, stretched by positive amounts,
/// points along `n`.
proof fn lemma_axis_stays(v: Real3, n: Int3, half: Real3)
    requires
        positive(half),
        is_axis(n),
        v == (
            (4 as real) * (half.1 * half.2) * (n.0 as real),
            (4 as real) * (half.2 * half.0) * (n.1 as real),
            (4 as real) * (half.0 * half.1) * (n.2 as real),
        ),
    ensures
        points_along(v, n),
{
    let yz = half.1 * half.2;
    let zx = half.2 * half.0;
    let xy = half.0 * half.1;
    assert(yz > 0 as real && zx > 0 as real && xy > 0 as real) by (nonlinear_arith)
        requires
            positive(half),
            yz == half.1 * half.2,
            zx == half.2 * half.0,
            xy == half.0 * half.1,
    ;
    let k: real = if n.0 != 0 {
        (4 as real) * yz
    } else if n.1 != 0 {
        (4 as real) * zx
    } else {
        (4 as real) * xy
    };
    let n0 = n.0 as real;
    let n1 = n.1 as real;
    let n2 = n.2 as real;
    assert((4 as real) * yz * n0 == k * n0 && (4 as real) * zx * n1 == k * n1 && (4 as real) * xy * n2 == k
        * n2) by (nonlinear_arith)
        requires
            (n0 == 1 as real || n0 == -(1 as real)) && n1 == 0 as real && n2 == 0 as real || n0 == 0 as real
                && (n1 == 1 as real || n1 == -(1 as real)) && n2 == 0 as real || n0 == 0 as real && n1
                == 0 as real && (n2 == 1 as real || n2 == -(1 as real)),
            k == if n0 != 0 as real {
                (4 as real) * yz
            } else if n1 != 0 as real {
                (4 as real) * zx
            } else {
                (4 as real) * xy
            },
    ;
    assert(scaled(k, n) == v);
}

/// The two triangles 0 1 2 and 0 2 3 over the corners of a face whose right
/// and up cross to the axis `n` face along `n` at any positive half extents,
/// wherever the face is centred.
pub proof fn lemma_quad_faces_out(center: Int3, n: Int3, r: Int3, u: Int3, half: Real3)
    requires
        positive(half),
        is_axis(n),
        cross(reals(r), reals(u)) == reals(n),
    ensures
        points_along(
            facing(
                stretched(face_corner(center, r, u, corner_offset(0)), half),
                stretched(face_corner(center, r, u, corner_offset(1)), half),
                stretched(face_corner(center, r, u, corner_offset(2)), half),
            ),
            n,
        ),
        points_along(
            facing(
                stretched(face_corner(center, r, u, corner_offset(0)), half),
                stretched(face_corner(center, r, u, corner_offset(2)), half),
                stretched(face_corner(center, r, u, corner_offset(3)), half),
            ),
            n,
        ),
{
    let lower_left = stretched(face_corner(center, r, u, corner_offset(0)), half);
    let lower_right = stretched(face_corner(center, r, u, corner_offset(1)), half);
    let upper_right = stretched(face_corner(center, r, u, corner_offset(2)), half);
    let upper_left = stretched(face_corner(center, r, u, corner_offset(3)), half);
    lemma_quad_side(center.0, r.0, u.0, half.0);
    lemma_quad_side(center.1, r.1, u.1, half.1);
    lemma_quad_side(center.2, r.2, u.2, half.2);
    let (r0, r1, r2) = reals(r);
    let (u0, u1, u2) = reals(u);
    assert(difference(lower_right, lower_left) == (
        (2 as real) * r0 * half.0,
        (2 as real) * r1 * half.1,
        (2 as real) * r2 * half.2,
    ));
    assert(difference(upper_right, lower_left) == (
        ((2 as real) * r0 + (2 as real) * u0) * half.0,
        ((2 as real) * r1 + (2 as real) * u1) * half.1,
        ((2 as real) * r2 + (2 as real) * u2) * half.2,
    ));
    assert(difference(upper_left, lower_left) == (
        (2 as real) * u0 * half.0,
        (2 as real) * u1 * half.1,
        (2 as real) * u2 * half.2,
    ));
    lemma_quad_term(r1, r2, u1, u2, half.1, half.2);
    lemma_quad_term(r2, r0, u2, u0, half.2, half.0);
    lemma_quad_term(r0, r1, u0, u1, half.0, half.1);
    let four_n = (
        (4 as real) * (half.1 * half.2) * (n.0 as real),
        (4 as real) * (half.2 * half.0) * (n.1 as real),
        (4 as real) * (half.0 * half.1) * (n.2 as real),
    );
    assert(facing(lower_left, lower_right, upper_right) == four_n);
    assert(facing(lower_left, upper_right, upper_left) == four_n);
    lemma_axis_stays(four_n, n, half);
}

} // verus!
