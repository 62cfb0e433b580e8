use vstd::prelude::*;

pub mod asteroid;
pub mod bullet;
pub mod geometry;
pub mod object;
pub mod ship;
pub mod world;

verus! {

/// Number of fixed-point units in one world unit: one unit is 1e-5 of the plane's half-width.
pub const UNIT: i64 = 100000;

/// Largest magnitude of a stored entity coordinate (2^58).
pub const POS_MAX: i64 = 0x400_0000_0000_0000;

/// Largest entity size, and largest per-event displacement (2^20).
pub const SIZE_MAX: i64 = 0x10_0000;

/// A position lies outside the open plane `(-1, 1)²`.
pub open spec fn out_of_plane(x: int, y: int) -> bool {
    x >= UNIT || x <= -UNIT || y >= UNIT || y <= -UNIT
}

/// The corners of an axis-aligned square of side `size` centred on `(x, y)`,
/// as two triangles: lower-left, lower-right, upper-right; upper-right,
/// upper-left, lower-left.
pub open spec fn square_shape(x: int, y: int, size: int) -> Seq<geometry::Vertex> {
    let h = size / 2;
    seq![
        geometry::Vertex { x: (x - h) as i64, y: (y - h) as i64 },
        geometry::Vertex { x: (x + h) as i64, y: (y - h) as i64 },
        geometry::Vertex { x: (x + h) as i64, y: (y + h) as i64 },
        geometry::Vertex { x: (x + h) as i64, y: (y + h) as i64 },
        geometry::Vertex { x: (x - h) as i64, y: (y + h) as i64 },
        geometry::Vertex { x: (x - h) as i64, y: (y - h) as i64 },
    ]
}

pub proof fn lemma_square_ok(x: int, y: int, size: int)
    requires
        -POS_MAX <= x <= POS_MAX,
        -POS_MAX <= y <= POS_MAX,
        0 <= size <= SIZE_MAX,
    ensures
        geometry::all_vertices_ok(square_shape(x, y, size)),
{
}

/// Builds the six vertices of `square_shape`.
pub fn square_vertices(x: i64, y: i64, size: i64) -> (r: Vec<geometry::Vertex>)
    requires
        -POS_MAX <= x <= POS_MAX,
        -POS_MAX <= y <= POS_MAX,
        0 <= size <= SIZE_MAX,
    ensures
        r@ == square_shape(x as int, y as int, size as int),
        geometry::all_vertices_ok(r@),
{
    let h = size / 2;
    let mut r: Vec<geometry::Vertex> = Vec::new();
    r.push(geometry::Vertex { x: x - h, y: y - h });
    r.push(geometry::Vertex { x: x + h, y: y - h });
    r.push(geometry::Vertex { x: x + h, y: y + h });
    r.push(geometry::Vertex { x: x + h, y: y + h });
    r.push(geometry::Vertex { x: x - h, y: y + h });
    r.push(geometry::Vertex { x: x - h, y: y - h });
    assert(r@ =~= square_shape(x as int, y as int, size as int));
    r
}

} // verus!
