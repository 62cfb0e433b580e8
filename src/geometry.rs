use vstd::prelude::*;

verus! {

/// Largest magnitude of a coordinate that the containment tests accept (2^60).
pub const COORD_MAX: i64 = 0x1000_0000_0000_0000;

/// A point of the plane, in fixed-point units.
#[derive(Clone, Copy, Debug, PartialEq, Eq, Structural)]
pub struct Vertex {
    pub x: i64,
    pub y: i64,
}

pub open spec fn coord_ok(v: int) -> bool {
    -COORD_MAX <= v <= COORD_MAX
}

pub open spec fn vertex_ok(v: Vertex) -> bool {
    coord_ok(v.x as int) && coord_ok(v.y as int)
}

pub open spec fn all_vertices_ok(vs: Seq<Vertex>) -> bool {
    forall|k: int| 0 <= k < vs.len() ==> vertex_ok(#[trigger] vs[k])
}

/// Signed area term of `p` against the edge from `b` to `a`, as the triangle test uses it.
pub open spec fn triangle_sign(p: Vertex, a: Vertex, b: Vertex) -> int {
    (p.x - b.x) * (a.y - b.y) - (a.x - b.x) * (p.y - b.y)
}

/// Signed area term of `p` against the edge from `a` to `b`, as the quad test uses it.
pub open spec fn quad_sign(p: Vertex, a: Vertex, b: Vertex) -> int {
    (b.x - a.x) * (p.y - a.y) - (p.x - a.x) * (b.y - a.y)
}

/// `p` lies in the closed triangle `a, b, c`: its three edge signs are all
/// non-positive or all non-negative, so a zero sign (a point on an edge) is
/// neutral.
pub open spec fn in_triangle(p: Vertex, a: Vertex, b: Vertex, c: Vertex) -> bool {
    let d1 = triangle_sign(p, a, b);
    let d2 = triangle_sign(p, b, c);
    let d3 = triangle_sign(p, c, a);
    !((d1 < 0 || d2 < 0 || d3 < 0) && (d1 > 0 || d2 > 0 || d3 > 0))
}

/// `p` lies in the closed quad with corners `v0, v1, v2, v3`, tested edge by
/// edge as `v1,v0 / v2,v1 / v3,v2 / v0,v3`, a zero sign being neutral.
pub open spec fn in_quad(p: Vertex, v0: Vertex, v1: Vertex, v2: Vertex, v3: Vertex) -> bool {
    let d1 = quad_sign(p, v1, v0);
    let d2 = quad_sign(p, v2, v1);
    let d3 = quad_sign(p, v3, v2);
    let d4 = quad_sign(p, v0, v3);
    !((d1 < 0 || d2 < 0 || d3 < 0 || d4 < 0) && (d1 > 0 || d2 > 0 || d3 > 0 || d4 > 0))
}

/// A shape of three vertices is a triangle, one of six the two-triangle square.
pub open spec fn shape_supported(shape: Seq<Vertex>) -> bool {
    shape.len() == 3 || shape.len() == 6
}

/// Containment of `p` in `shape`, chosen by the shape's vertex count. A
/// six-vertex shape is two triangles `0, 1, 2` and `3, 4, 5` sharing the
/// diagonal; its distinct corners are vertices `0, 1, 2, 4`.
pub open spec fn contains(shape: Seq<Vertex>, p: Vertex) -> bool {
    if shape.len() == 3 {
        in_triangle(p, shape[0], shape[1], shape[2])
    } else if shape.len() == 6 {
        in_quad(p, shape[0], shape[1], shape[2], shape[4])
    } else {
        false
    }
}

/// Some vertex of `probe` lies in `target`.
pub open spec fn collides(probe: Seq<Vertex>, target: Seq<Vertex>) -> bool {
    exists|k: int| 0 <= k < probe.len() && contains(target, #[trigger] probe[k])
}

proof fn lemma_product_bound(a: int, b: int)
    requires
        -0x4000_0000_0000_0000 <= a <= 0x4000_0000_0000_0000,
        -0x4000_0000_0000_0000 <= b <= 0x4000_0000_0000_0000,
    ensures
        -0x1000_0000_0000_0000_0000_0000_0000_0000 <= a * b <= 0x1000_0000_0000_0000_0000_0000_0000_0000,
{
    assert(-0x1000_0000_0000_0000_0000_0000_0000_0000 <= a * b <= 0x1000_0000_0000_0000_0000_0000_0000_0000)
        by (nonlinear_arith)
        requires
            -0x4000_0000_0000_0000 <= a <= 0x4000_0000_0000_0000,
            -0x4000_0000_0000_0000 <= b <= 0x4000_0000_0000_0000,
    ;
}

/// `a * b - c * d` computed without overflow for coordinate differences.
fn cross(a: i128, b: i128, c: i128, d: i128) -> (r: i128)
    requires
        -0x4000_0000_0000_0000 <= a <= 0x4000_0000_0000_0000,
        -0x4000_0000_0000_0000 <= b <= 0x4000_0000_0000_0000,
        -0x4000_0000_0000_0000 <= c <= 0x4000_0000_0000_0000,
        -0x4000_0000_0000_0000 <= d <= 0x4000_0000_0000_0000,
    ensures
        r == a * b - c * d,
{
    proof {
        lemma_product_bound(a as int, b as int);
        lemma_product_bound(c as int, d as int);
    }
    a * b - c * d
}

pub fn sign_triangle(point: &Vertex, vertex1: &Vertex, vertex2: &Vertex) -> (r: i128)
    requires
        vertex_ok(*point),
        vertex_ok(*vertex1),
        vertex_ok(*vertex2),
    ensures
        r == triangle_sign(*point, *vertex1, *vertex2),
{
    cross(
        point.x as i128 - vertex2.x as i128,
        vertex1.y as i128 - vertex2.y as i128,
        vertex1.x as i128 - vertex2.x as i128,
        point.y as i128 - vertex2.y as i128,
    )
}

pub fn sign_rectangle(point: &Vertex, vertex1: &Vertex, vertex2: &Vertex) -> (r: i128)
    requires
        vertex_ok(*point),
        vertex_ok(*vertex1),
        vertex_ok(*vertex2),
    ensures
        r == quad_sign(*point, *vertex1, *vertex2),
{
    cross(
        vertex2.x as i128 - vertex1.x as i128,
        point.y as i128 - vertex1.y as i128,
        point.x as i128 - vertex1.x as i128,
        vertex2.y as i128 - vertex1.y as i128,
    )
}

/// Boundary-inclusive containment of `point` in the triangle of the first
/// three `vertices`.
pub fn inside_triangle(point: &Vertex, vertices: &Vec<Vertex>) -> (r: bool)
    requires
        vertices.len() >= 3,
        vertex_ok(*point),
        all_vertices_ok(vertices@),
    ensures
        r == in_triangle(*point, vertices@[0], vertices@[1], vertices@[2]),
{
    let d1 = sign_triangle(point, &vertices[0], &vertices[1]);
    let d2 = sign_triangle(point, &vertices[1], &vertices[2]);
    let d3 = sign_triangle(point, &vertices[2], &vertices[0]);

    let has_neg = (d1 < 0) || (d2 < 0) || (d3 < 0);
    let has_pos = (d1 > 0) || (d2 > 0) || (d3 > 0);

    !(has_neg && has_pos)
}

/// Boundary-inclusive containment of `point` in the square given in the
/// six-vertex two-triangle form, tested on its corners `0, 1, 2, 4`.
pub fn inside_rectangle(point: &Vertex, vertices: &Vec<Vertex>) -> (r: bool)
    requires
        vertices.len() == 6,
        vertex_ok(*point),
        all_vertices_ok(vertices@),
    ensures
        r == in_quad(*point, vertices@[0], vertices@[1], vertices@[2], vertices@[4]),
{
    let d1 = sign_rectangle(point, &vertices[1], &vertices[0]);
    let d2 = sign_rectangle(point, &vertices[2], &vertices[1]);
    let d3 = sign_rectangle(point, &vertices[4], &vertices[2]);
    let d4 = sign_rectangle(point, &vertices[0], &vertices[4]);

    let has_neg = (d1 < 0) || (d2 < 0) || (d3 < 0) || (d4 < 0);
    let has_pos = (d1 > 0) || (d2 > 0) || (d3 > 0) || (d4 > 0);

    !(has_neg && has_pos)
}

/// Whether some vertex of `probe` lies in `target`, a triangle or a
/// two-triangle square.
pub fn shapes_collide(probe: &Vec<Vertex>, target: &Vec<Vertex>) -> (r: bool)
    requires
        shape_supported(target@),
        all_vertices_ok(probe@),
        all_vertices_ok(target@),
    ensures
        r == collides(probe@, target@),
{
    let is_triangle = target.len() == 3;
    let mut i: usize = 0;
    while i < probe.len()
        invariant
            0 <= i <= probe.len(),
            is_triangle == (target@.len() == 3),
            shape_supported(target@),
            all_vertices_ok(probe@),
            all_vertices_ok(target@),
            forall|k: int| 0 <= k < i ==> !contains(target@, #[trigger] probe@[k]),
        decreases probe.len() - i,
    {
        let inside = if is_triangle {
            inside_triangle(&probe[i], target)
        } else {
            inside_rectangle(&probe[i], target)
        };
        if inside {
            assert(contains(target@, probe@[i as int]));
            return true;
        }
        i += 1;
    }
    false
}

/// Points of the closed right triangle `(0,0), (1,0), (0,1)`, its edges and
/// corners included, are contained in it, and points outside it are not.
pub proof fn lemma_unit_triangle(p: Vertex)
    ensures
        ({
            let a = Vertex { x: 0, y: 0 };
            let b = Vertex { x: crate::UNIT, y: 0 };
            let c = Vertex { x: 0, y: crate::UNIT };
            &&& (p.x >= 0 && p.y >= 0 && p.x + p.y <= crate::UNIT) ==> in_triangle(p, a, b, c)
            &&& (p.x < 0 || p.y < 0 || p.x + p.y > crate::UNIT) ==> !in_triangle(p, a, b, c)
        }),
{
    let a = Vertex { x: 0, y: 0 };
    let b = Vertex { x: crate::UNIT, y: 0 };
    let c = Vertex { x: 0, y: crate::UNIT };
    let u = crate::UNIT as int;
    let (px, py) = (p.x as int, p.y as int);
    assert(triangle_sign(p, a, b) == u * py) by (nonlinear_arith)
        requires a.x == 0, a.y == 0, b.x == u, b.y == 0, px == p.x, py == p.y;
    assert(triangle_sign(p, b, c) == u * (u - px - py)) by (nonlinear_arith)
        requires b.x == u, b.y == 0, c.x == 0, c.y == u, px == p.x, py == p.y;
    assert(triangle_sign(p, c, a) == u * px) by (nonlinear_arith)
        requires a.x == 0, a.y == 0, c.x == 0, c.y == u, px == p.x, py == p.y;
    lemma_sign_of_scaled(u, py);
    lemma_sign_of_scaled(u, px);
    lemma_sign_of_scaled(u, u - px - py);
    assert(u * py + u * (u - px - py) + u * px == u * u) by (nonlinear_arith);
    assert(u * u > 0) by (nonlinear_arith) requires u > 0;
}

/// For `u > 0`, `u * v` has the sign of `v`.
proof fn lemma_sign_of_scaled(u: int, v: int)
    requires
        u > 0,
    ensures
        v > 0 ==> u * v > 0,
        v < 0 ==> u * v < 0,
        v == 0 ==> u * v == 0,
{
    assert(v > 0 ==> u * v > 0) by (nonlinear_arith) requires u > 0;
    assert(v < 0 ==> u * v < 0) by (nonlinear_arith) requires u > 0;
    assert(v == 0 ==> u * v == 0) by (nonlinear_arith);
}

/// The six-vertex form of a square of half-side `size / 2 > 0` contains
/// exactly the points of the closed square.
pub proof fn lemma_square_contains(x: int, y: int, size: int, p: Vertex)
    requires
        -crate::POS_MAX <= x <= crate::POS_MAX,
        -crate::POS_MAX <= y <= crate::POS_MAX,
        2 <= size <= crate::SIZE_MAX,
    ensures
        contains(crate::square_shape(x, y, size), p) <==> (
            x - size / 2 <= p.x <= x + size / 2 && y - size / 2 <= p.y <= y + size / 2),
{
    let s = crate::square_shape(x, y, size);
    let h = size / 2;
    let (l, r, bo, t) = (x - h, x + h, y - h, y + h);
    let w = 2 * h;
    let (px, py) = (p.x as int, p.y as int);
    assert(s[0].x == l && s[0].y == bo && s[1].x == r && s[1].y == bo);
    assert(s[2].x == r && s[2].y == t && s[4].x == l && s[4].y == t);
    assert(quad_sign(p, s[1], s[0]) == w * (bo - py)) by (nonlinear_arith)
        requires s[0].x == l, s[0].y == bo, s[1].x == r, s[1].y == bo, w == r - l, px == p.x, py == p.y;
    assert(quad_sign(p, s[2], s[1]) == w * (px - r)) by (nonlinear_arith)
        requires s[1].x == r, s[1].y == bo, s[2].x == r, s[2].y == t, w == t - bo, px == p.x, py == p.y;
    assert(quad_sign(p, s[4], s[2]) == w * (py - t)) by (nonlinear_arith)
        requires s[2].x == r, s[2].y == t, s[4].x == l, s[4].y == t, w == r - l, px == p.x, py == p.y;
    assert(quad_sign(p, s[0], s[4]) == w * (l - px)) by (nonlinear_arith)
        requires s[4].x == l, s[4].y == t, s[0].x == l, s[0].y == bo, w == t - bo, px == p.x, py == p.y;
    lemma_sign_of_scaled(w, bo - py);
    lemma_sign_of_scaled(w, px - r);
    lemma_sign_of_scaled(w, py - t);
    lemma_sign_of_scaled(w, l - px);
}

} // verus!
