use vstd::prelude::*;
use crate::geometry::{all_vertices_ok, Vertex};
use crate::object::Object;
use crate::{POS_MAX, SIZE_MAX, UNIT};

verus! {

/// Where a coordinate that reaches an edge of the plane reappears: just
/// inside the opposite edge (0.99).
pub const WRAP_INSET: i64 = 99000;

/// Degrees turned by one rotation event.
pub const ROTATION_STEP: i64 = 3;

/// The player's ship: a triangle centred on `(x, y)`, heading `angle`
/// degrees counter-clockwise from up.
#[derive(Clone, Copy, Debug, PartialEq, Eq, Structural)]
pub struct Ship {
    pub x: i64,
    pub y: i64,
    pub size: i64,
    pub angle: i64,
}

/// A coordinate after wraparound.
pub open spec fn wrap(v: int) -> int {
    if v >= UNIT {
        -WRAP_INSET as int
    } else if v <= -UNIT {
        WRAP_INSET as int
    } else {
        v
    }
}

pub open spec fn is_floor_sqrt(r: int, n: int) -> bool {
    0 <= r && r * r <= n < (r + 1) * (r + 1)
}

/// The integer square root of `n`, rounded down.
pub open spec fn floor_sqrt(n: int) -> int {
    choose|r: int| #[trigger] is_floor_sqrt(r, n)
}

/// Height of the apex above the centre: `size / sqrt(3)`, rounded down.
pub open spec fn apex_offset(size: int) -> int {
    floor_sqrt(size * size / 3)
}

/// Depth of the base below the centre: `size / (2 sqrt(3))`, rounded down.
pub open spec fn base_offset(size: int) -> int {
    floor_sqrt(size * size / 12)
}

/// The ship's triangle, unrotated: apex, lower-left, lower-right.
pub open spec fn ship_shape(x: int, y: int, size: int) -> Seq<Vertex> {
    let h = apex_offset(size);
    let b = base_offset(size);
    let w = size / 2;
    seq![
        Vertex { x: x as i64, y: (y + h) as i64 },
        Vertex { x: (x - w) as i64, y: (y - b) as i64 },
        Vertex { x: (x + w) as i64, y: (y - b) as i64 },
    ]
}

proof fn lemma_floor_sqrt_unique(r: int, n: int)
    requires
        is_floor_sqrt(r, n),
    ensures
        floor_sqrt(n) == r,
{
    let s = floor_sqrt(n);
    assert(is_floor_sqrt(s, n));
    if s < r {
        assert((s + 1) * (s + 1) <= r * r) by (nonlinear_arith)
            requires 0 <= s, s + 1 <= r;
    } else if r < s {
        assert((r + 1) * (r + 1) <= s * s) by (nonlinear_arith)
            requires 0 <= r, r + 1 <= s;
    }
}

/// The integer square root of `n`, counted up from zero.
fn floor_sqrt_exec(n: u64) -> (r: i64)
    requires
        n <= 0x100_0000_0000,
    ensures
        is_floor_sqrt(r as int, n as int),
        floor_sqrt(n as int) == r,
        r <= SIZE_MAX,
{
    let mut r: i64 = 0;
    let mut done = false;
    while !done
        invariant
            0 <= r <= 0x10_0000,
            r * r <= n,
            n <= 0x100_0000_0000,
            done ==> n < (r + 1) * (r + 1),
        decreases n - r * r + (if done { 0int } else { 1int }),
    {
        let s = r + 1;
        proof {
            assert(s * s <= 0x100_0020_0001) by (nonlinear_arith)
                requires 1 <= s <= 0x10_0001;
            assert(r * r < s * s) by (nonlinear_arith)
                requires 0 <= r, s == r + 1;
            assert(s * s <= 0x100_0000_0000 ==> s <= 0x10_0000) by (nonlinear_arith)
                requires 0 <= s;
        }
        if ((s * s) as u64) <= n {
            r = s;
        } else {
            done = true;
        }
    }
    proof {
        lemma_floor_sqrt_unique(r as int, n as int);
    }
    r
}

impl Ship {
    /// The state after one move by `(dx, dy)`, with wraparound.
    pub open spec fn moved(self, dx: int, dy: int) -> Ship {
        Ship { x: wrap(self.x + dx) as i64, y: wrap(self.y + dy) as i64, ..self }
    }

    /// A ship of side `size` at `(x, y)`, heading up.
    pub fn new(size: i64, x: i64, y: i64) -> (r: Ship)
        requires
            0 <= size <= SIZE_MAX,
            -POS_MAX <= x <= POS_MAX,
            -POS_MAX <= y <= POS_MAX,
        ensures
            r.well_formed(),
            r == (Ship { x, y, size, angle: 0 }),
    {
        Ship { x, y, size, angle: 0 }
    }

    pub fn set_pos(&mut self, x: i64, y: i64)
        requires
            -POS_MAX <= x <= POS_MAX,
            -POS_MAX <= y <= POS_MAX,
        ensures
            *final(self) == (Ship { x, y, ..*old(self) }),
    {
        self.x = x;
        self.y = y;
    }

    pub fn set_angle(&mut self, angle: i64)
        ensures
            *final(self) == (Ship { angle, ..*old(self) }),
    {
        self.angle = angle;
    }

    /// The heading, in degrees counter-clockwise from up.
    pub fn get_angle(&self) -> (r: i64)
        ensures
            r == self.angle,
    {
        self.angle
    }

    /// Thrusts forward by the displacement `(dx, dy)` that one step along the
    /// current heading gives, wrapping at the edges of the plane.
    pub fn move_forward(&mut self, dx: i64, dy: i64)
        requires
            old(self).well_formed(),
            -SIZE_MAX <= dx <= SIZE_MAX,
            -SIZE_MAX <= dy <= SIZE_MAX,
        ensures
            *final(self) == old(self).moved(dx as int, dy as int),
            final(self).well_formed(),
    {
        self.x = wrap_exec(self.x + dx);
        self.y = wrap_exec(self.y + dy);
    }

    /// Thrusts backward by the displacement `(dx, dy)` that one step along the
    /// current heading gives, wrapping at the edges of the plane.
    pub fn move_backward(&mut self, dx: i64, dy: i64)
        requires
            old(self).well_formed(),
            -SIZE_MAX <= dx <= SIZE_MAX,
            -SIZE_MAX <= dy <= SIZE_MAX,
        ensures
            *final(self) == old(self).moved(-dx, -dy),
            final(self).well_formed(),
    {
        self.x = wrap_exec(self.x - dx);
        self.y = wrap_exec(self.y - dy);
    }

    /// Turns the heading counter-clockwise by three degrees.
    pub fn rotate_left(&mut self)
        requires
            old(self).angle <= i64::MAX - ROTATION_STEP,
        ensures
            *final(self) == (Ship { angle: (old(self).angle + ROTATION_STEP) as i64, ..*old(self) }),
    {
        self.angle = self.angle + ROTATION_STEP;
    }

    /// Turns the heading clockwise by three degrees.
    pub fn rotate_right(&mut self)
        requires
            old(self).angle >= i64::MIN + ROTATION_STEP,
        ensures
            *final(self) == (Ship { angle: (old(self).angle - ROTATION_STEP) as i64, ..*old(self) }),
    {
        self.angle = self.angle - ROTATION_STEP;
    }

    /// A move forward and then backward by the same displacement returns the
    /// ship to where it was, unless either move crossed an edge of the plane.
    pub proof fn lemma_forward_backward(self, dx: int, dy: int)
        requires
            -UNIT < self.x < UNIT,
            -UNIT < self.y < UNIT,
            -UNIT < self.x + dx < UNIT,
            -UNIT < self.y + dy < UNIT,
        ensures
            self.moved(dx, dy).moved(-dx, -dy) == self,
    {
    }
}

fn wrap_exec(v: i64) -> (r: i64)
    ensures
        r == wrap(v as int),
{
    if v >= UNIT {
        -WRAP_INSET
    } else if v <= -UNIT {
        WRAP_INSET
    } else {
        v
    }
}

impl Object for Ship {
    open spec fn well_formed(&self) -> bool {
        &&& -POS_MAX <= self.x <= POS_MAX
        &&& -POS_MAX <= self.y <= POS_MAX
        &&& 0 <= self.size <= SIZE_MAX
    }

    open spec fn shape(&self) -> Seq<Vertex> {
        ship_shape(self.x as int, self.y as int, self.size as int)
    }

    open spec fn position(&self) -> (int, int) {
        (self.x as int, self.y as int)
    }

    open spec fn extent(&self) -> int {
        self.size as int
    }

    proof fn lemma_shape_ok(&self) {
        let n3 = self.size * self.size / 3;
        let n12 = self.size * self.size / 12;
        assert(self.size * self.size <= SIZE_MAX * SIZE_MAX) by (nonlinear_arith)
            requires 0 <= self.size <= SIZE_MAX;
        lemma_sqrt_le_size(self.size as int, n3);
        lemma_sqrt_le_size(self.size as int, n12);
        assert(all_vertices_ok(self.shape()));
    }

    fn get_vertices(&self) -> (r: Vec<Vertex>) {
        proof {
            assert(self.size * self.size <= 0x100_0000_0000) by (nonlinear_arith)
                requires 0 <= self.size <= 0x10_0000;
        }
        let sq = (self.size * self.size) as u64;
        let h = floor_sqrt_exec(sq / 3);
        let b = floor_sqrt_exec(sq / 12);
        let w = self.size / 2;
        let mut r: Vec<Vertex> = Vec::new();
        r.push(Vertex { x: self.x, y: self.y + h });
        r.push(Vertex { x: self.x - w, y: self.y - b });
        r.push(Vertex { x: self.x + w, y: self.y - b });
        assert(r@ =~= self.shape());
        r
    }

    fn get_size(&self) -> (r: i64) {
        self.size
    }

    fn get_pos(&self) -> (r: (i64, i64)) {
        (self.x, self.y)
    }
}

/// A square root of a number no larger than `size * size` is no larger than `size`.
proof fn lemma_sqrt_le_size(size: int, n: int)
    requires
        0 <= size,
        0 <= n <= size * size,
    ensures
        0 <= floor_sqrt(n) <= size,
{
    let r = floor_sqrt(n);
    assert(exists|r: int| #[trigger] is_floor_sqrt(r, n)) by {
        lemma_floor_sqrt_exists(n);
    }
    assert(is_floor_sqrt(r, n));
    if r > size {
        assert((size + 1) * (size + 1) <= r * r) by (nonlinear_arith)
            requires size + 1 <= r, 0 <= size;
        assert(size * size < (size + 1) * (size + 1)) by (nonlinear_arith)
            requires 0 <= size;
    }
}

proof fn lemma_floor_sqrt_exists(n: int)
    requires
        0 <= n,
    ensures
        exists|r: int| #[trigger] is_floor_sqrt(r, n),
    decreases n,
{
    if n == 0 {
        assert(is_floor_sqrt(0, 0));
    } else {
        lemma_floor_sqrt_exists(n - 1);
        let r = choose|r: int| #[trigger] is_floor_sqrt(r, n - 1);
        if (r + 1) * (r + 1) <= n {
            assert((r + 1) * (r + 1) == n) by (nonlinear_arith)
                requires (r + 1) * (r + 1) <= n, n - 1 < (r + 1) * (r + 1);
            assert(n < (r + 2) * (r + 2)) by (nonlinear_arith)
                requires (r + 1) * (r + 1) == n, 0 <= r;
            assert(is_floor_sqrt(r + 1, n));
        } else {
            assert(is_floor_sqrt(r, n));
        }
    }
}

} // verus!
