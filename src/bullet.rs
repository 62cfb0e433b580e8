use vstd::prelude::*;
use crate::geometry::Vertex;
use crate::object::Object;
use crate::{lemma_square_ok, square_shape, square_vertices, POS_MAX, SIZE_MAX};

verus! {

/// A bullet flying at a constant per-frame velocity `(dirx, diry)`.
#[derive(Clone, Copy, Debug, PartialEq, Eq, Structural)]
pub struct Bullet {
    pub x: i64,
    pub y: i64,
    pub size: i64,
    pub dirx: i64,
    pub diry: i64,
}

impl Bullet {
    /// The state after one `update_position`.
    pub open spec fn advanced(self) -> Bullet {
        Bullet { x: (self.x + self.dirx) as i64, y: (self.y + self.diry) as i64, ..self }
    }

    /// The state after `n` calls of `update_position`.
    pub open spec fn advanced_by(self, n: nat) -> Bullet
        decreases n,
    {
        if n == 0 { self } else { self.advanced_by((n - 1) as nat).advanced() }
    }

    /// One more step keeps the position representable.
    pub open spec fn can_advance(self) -> bool {
        &&& -POS_MAX <= self.x + self.dirx <= POS_MAX
        &&& -POS_MAX <= self.y + self.diry <= POS_MAX
    }

    /// A bullet at `(x, y)` moving by `(dirx, diry)` each frame.
    pub fn new(size: i64, x: i64, y: i64, dirx: i64, diry: i64) -> (r: Bullet)
        requires
            0 <= size <= SIZE_MAX,
            -POS_MAX <= x <= POS_MAX,
            -POS_MAX <= y <= POS_MAX,
            -SIZE_MAX <= dirx <= SIZE_MAX,
            -SIZE_MAX <= diry <= SIZE_MAX,
        ensures
            r.well_formed(),
            r == (Bullet { x, y, size, dirx, diry }),
    {
        Bullet { x, y, size, dirx, diry }
    }

    /// Moves the bullet by its velocity.
    pub fn update_position(&mut self)
        requires
            old(self).well_formed(),
            old(self).can_advance(),
        ensures
            *final(self) == old(self).advanced(),
            final(self).well_formed(),
    {
        self.x = self.x + self.dirx;
        self.y = self.y + self.diry;
    }

    /// `n` advances move the bullet by exactly `n` times its velocity, for as
    /// long as the position stays representable.
    pub proof fn lemma_linear_motion(self, n: nat)
        requires
            self.well_formed(),
            -POS_MAX <= self.x + n * self.dirx <= POS_MAX,
            -POS_MAX <= self.y + n * self.diry <= POS_MAX,
        ensures
            self.advanced_by(n).x == self.x + n * self.dirx,
            self.advanced_by(n).y == self.y + n * self.diry,
            self.advanced_by(n).dirx == self.dirx,
            self.advanced_by(n).diry == self.diry,
            self.advanced_by(n).size == self.size,
        decreases n,
    {
        if n > 0 {
            let m = (n - 1) as nat;
            lemma_between(m as int, n as int, self.dirx as int);
            lemma_between(m as int, n as int, self.diry as int);
            self.lemma_linear_motion(m);
            assert(m * self.dirx + self.dirx == n * self.dirx) by (nonlinear_arith)
                requires n == m + 1;
            assert(m * self.diry + self.diry == n * self.diry) by (nonlinear_arith)
                requires n == m + 1;
            let prev = self.advanced_by(m);
            assert(self.advanced_by(n) == prev.advanced());
            assert(prev.x + prev.dirx == self.x + n * self.dirx);
            assert(prev.y + prev.diry == self.y + n * self.diry);
        } else {
            assert(n * self.dirx == 0 && n * self.diry == 0) by (nonlinear_arith)
                requires n == 0;
        }
    }
}

/// `m * d` lies between `0` and `n * d` when `0 <= m <= n`.
proof fn lemma_between(m: int, n: int, d: int)
    requires
        0 <= m <= n,
    ensures
        d >= 0 ==> 0 <= m * d <= n * d,
        d < 0 ==> n * d <= m * d <= 0,
{
    if d >= 0 {
        assert(0 <= m * d <= n * d) by (nonlinear_arith)
            requires 0 <= m <= n, d >= 0;
    } else {
        assert(n * d <= m * d <= 0) by (nonlinear_arith)
            requires 0 <= m <= n, d < 0;
    }
}

impl Object for Bullet {
    open spec fn well_formed(&self) -> bool {
        &&& -POS_MAX <= self.x <= POS_MAX
        &&& -POS_MAX <= self.y <= POS_MAX
        &&& -SIZE_MAX <= self.dirx <= SIZE_MAX
        &&& -SIZE_MAX <= self.diry <= SIZE_MAX
        &&& 0 <= self.size <= SIZE_MAX
    }

    open spec fn shape(&self) -> Seq<Vertex> {
        square_shape(self.x as int, self.y as int, self.size as int)
    }

    open spec fn position(&self) -> (int, int) {
        (self.x as int, self.y as int)
    }

    open spec fn extent(&self) -> int {
        self.size as int
    }

    proof fn lemma_shape_ok(&self) {
        lemma_square_ok(self.x as int, self.y as int, self.size as int);
    }

    fn get_vertices(&self) -> (r: Vec<Vertex>) {
        square_vertices(self.x, self.y, self.size)
    }

    fn get_size(&self) -> (r: i64) {
        self.size
    }

    fn get_pos(&self) -> (r: (i64, i64)) {
        (self.x, self.y)
    }
}

} // verus!
