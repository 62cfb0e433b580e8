use vstd::prelude::*;
use crate::geometry::Vertex;
use crate::object::Object;
use crate::{lemma_square_ok, square_shape, square_vertices, POS_MAX, SIZE_MAX, UNIT};

verus! {

/// Largest magnitude of a spawn position or of the ship position it aims at (2^20).
pub const SPAWN_MAX: i64 = 0x10_0000;

/// Largest number of steps an asteroid can take along its dominant axis (2^36).
pub const STEP_MAX: i64 = 0x10_0000_0000;

/// Where the derived coordinate goes when the slope's divisor is zero: the
/// slope is then infinite and the asteroid leaves the plane.
pub const OFF_PLANE: i64 = 2 * UNIT;

/// An asteroid drifting along a fixed line from its spawn point.
///
/// `incx`/`incy` count the steps along the dominant axis. `slope_num /
/// slope_den` is the slope `a`, fixed at spawn from the direction to the ship
/// then; it decides the dominant axis, the direction of the steps and the line
/// the other coordinate follows. `dirx`/`diry` hold the direction to the ship
/// as last given, which does not re-aim the asteroid.
#[derive(Clone, Copy, Debug, PartialEq, Eq, Structural)]
pub struct Asteroid {
    pub x: i64,
    pub y: i64,
    pub incx: i64,
    pub incy: i64,
    pub size: i64,
    pub initx: i64,
    pub inity: i64,
    pub dirx: i64,
    pub diry: i64,
    pub slope_num: i64,
    pub slope_den: i64,
}

pub open spec fn abs(v: int) -> int {
    if v < 0 { -v } else { v }
}

/// Quotient rounded toward zero, as integer division of Rust rounds it.
pub open spec fn div_trunc(n: int, d: int) -> int {
    if (n < 0) == (d < 0) { abs(n) / abs(d) } else { -(abs(n) / abs(d)) }
}

/// `+1` for a non-negative direction, `-1` for a negative one.
pub open spec fn step_of(d: int) -> int {
    if d < 0 { -1 } else { 1 }
}

/// The coordinate that follows the line: `other0 + offset * num / den`,
/// or off the plane when `den` is zero.
pub open spec fn line_coord(other0: int, offset: int, num: int, den: int) -> int {
    if den == 0 { OFF_PLANE as int } else { other0 + div_trunc(offset * num, den) }
}

impl Asteroid {
    /// The asteroid steps along x rather than along y.
    pub open spec fn x_dominant(self) -> bool {
        abs(self.slope_num as int) > abs(self.slope_den as int)
    }

    /// The state after one `update_position`.
    pub open spec fn advanced(self) -> Asteroid {
        if self.x_dominant() {
            let incx = self.incx + step_of(self.slope_num as int);
            Asteroid {
                x: incx as i64,
                y: line_coord(self.inity as int, incx - self.initx, self.slope_num as int, self.slope_den as int) as i64,
                incx: incx as i64,
                ..self
            }
        } else {
            let incy = self.incy + step_of(self.slope_den as int);
            Asteroid {
                x: line_coord(self.initx as int, incy - self.inity, self.slope_den as int, self.slope_num as int) as i64,
                y: incy as i64,
                incy: incy as i64,
                ..self
            }
        }
    }

    /// The state after `n` calls of `update_position`.
    pub open spec fn advanced_by(self, n: nat) -> Asteroid
        decreases n,
    {
        if n == 0 { self } else { self.advanced_by((n - 1) as nat).advanced() }
    }

    /// One more step stays within the step budget.
    pub open spec fn can_advance(self) -> bool {
        abs(self.incx - self.initx) < STEP_MAX && abs(self.incy - self.inity) < STEP_MAX
    }

    /// A fresh asteroid of side `size` at `(x, y)`, aimed at `(shipx, shipy)`.
    pub open spec fn spawned(size: int, x: int, y: int, shipx: int, shipy: int) -> Asteroid {
        Asteroid {
            x: x as i64,
            y: y as i64,
            incx: x as i64,
            incy: y as i64,
            size: size as i64,
            initx: x as i64,
            inity: y as i64,
            dirx: (shipx - x) as i64,
            diry: (shipy - y) as i64,
            slope_num: (shipx - x) as i64,
            slope_den: (shipy - y) as i64,
        }
    }

    pub fn new(size: i64, x: i64, y: i64, shipx: i64, shipy: i64) -> (r: Asteroid)
        requires
            0 <= size <= SIZE_MAX,
            -SPAWN_MAX <= x <= SPAWN_MAX,
            -SPAWN_MAX <= y <= SPAWN_MAX,
            -SPAWN_MAX <= shipx <= SPAWN_MAX,
            -SPAWN_MAX <= shipy <= SPAWN_MAX,
        ensures
            r.well_formed(),
            r == Asteroid::spawned(size as int, x as int, y as int, shipx as int, shipy as int),
    {
        Asteroid {
            x,
            y,
            incx: x,
            incy: y,
            size,
            initx: x,
            inity: y,
            dirx: shipx - x,
            diry: shipy - y,
            slope_num: shipx - x,
            slope_den: shipy - y,
        }
    }

    /// Steps the asteroid once along its dominant axis and puts the other
    /// coordinate on its line.
    pub fn update_position(&mut self)
        requires
            old(self).well_formed(),
            old(self).can_advance(),
        ensures
            *final(self) == old(self).advanced(),
            final(self).well_formed(),
    {
        if abs_i64(self.slope_num) > abs_i64(self.slope_den) {
            self.incx = if self.slope_num < 0 { self.incx - 1 } else { self.incx + 1 };
            self.x = self.incx;
            self.y = line_value(self.inity, self.incx - self.initx, self.slope_num, self.slope_den);
        } else {
            self.incy = if self.slope_den < 0 { self.incy - 1 } else { self.incy + 1 };
            self.y = self.incy;
            self.x = line_value(self.initx, self.incy - self.inity, self.slope_den, self.slope_num);
        }
    }

    /// Records the direction to the ship's position `pos`. The slope, and so
    /// the asteroid's motion, stays as it was fixed at spawn.
    pub fn update_ship_pos(&mut self, pos: (i64, i64))
        requires
            old(self).well_formed(),
            -2 * SPAWN_MAX <= pos.0 - old(self).x <= 2 * SPAWN_MAX,
            -2 * SPAWN_MAX <= pos.1 - old(self).y <= 2 * SPAWN_MAX,
        ensures
            *final(self) == (Asteroid {
                dirx: (pos.0 - old(self).x) as i64,
                diry: (pos.1 - old(self).y) as i64,
                ..*old(self)
            }),
            final(self).well_formed(),
    {
        self.dirx = pos.0 - self.x;
        self.diry = pos.1 - self.y;
    }
}

impl Asteroid {
    /// One step keeps a well-formed asteroid well-formed.
    pub proof fn lemma_advance_ok(self)
        requires
            self.well_formed(),
            self.can_advance(),
        ensures
            self.advanced().well_formed(),
    {
        lemma_line_coord_bound(self.inity as int, self.incx + step_of(self.slope_num as int) - self.initx,
            self.slope_num as int, self.slope_den as int);
        lemma_line_coord_bound(self.initx as int, self.incy + step_of(self.slope_den as int) - self.inity,
            self.slope_den as int, self.slope_num as int);
    }

    /// `n` steps move the asteroid by exactly `n` units along its dominant
    /// axis, away from or toward the ship's side as its direction says, and
    /// after each step the other coordinate lies on the line of slope
    /// `slope_num / slope_den` through the spawn point.
    pub proof fn lemma_steady_drift(self, n: nat)
        requires
            self.well_formed(),
            abs(self.incx - self.initx) + n <= STEP_MAX,
            abs(self.incy - self.inity) + n <= STEP_MAX,
        ensures
            self.advanced_by(n).well_formed(),
            self.advanced_by(n).dirx == self.dirx,
            self.advanced_by(n).diry == self.diry,
            self.advanced_by(n).slope_num == self.slope_num,
            self.advanced_by(n).slope_den == self.slope_den,
            self.advanced_by(n).initx == self.initx,
            self.advanced_by(n).inity == self.inity,
            self.advanced_by(n).size == self.size,
            self.x_dominant() ==> self.advanced_by(n).incx == self.incx + n * step_of(self.slope_num as int)
                && self.advanced_by(n).incy == self.incy,
            !self.x_dominant() ==> self.advanced_by(n).incy == self.incy + n * step_of(self.slope_den as int)
                && self.advanced_by(n).incx == self.incx,
            n >= 1 && self.x_dominant() ==> {
                let a = self.advanced_by(n);
                a.x == a.incx && a.y == line_coord(self.inity as int, a.incx - self.initx, self.slope_num as int, self.slope_den as int)
            },
            n >= 1 && !self.x_dominant() ==> {
                let a = self.advanced_by(n);
                a.y == a.incy && a.x == line_coord(self.initx as int, a.incy - self.inity, self.slope_den as int, self.slope_num as int)
            },
        decreases n,
    {
        if n == 0 {
            assert(n * step_of(self.slope_num as int) == 0 && n * step_of(self.slope_den as int) == 0) by (nonlinear_arith)
                requires n == 0;
        } else {
            let m = (n - 1) as nat;
            self.lemma_steady_drift(m);
            let p = self.advanced_by(m);
            let sx = step_of(self.slope_num as int);
            let sy = step_of(self.slope_den as int);
            assert(m * sx + sx == n * sx) by (nonlinear_arith)
                requires n == m + 1;
            assert(m * sy + sy == n * sy) by (nonlinear_arith)
                requires n == m + 1;
            assert(-(m as int) <= m * sx <= m) by (nonlinear_arith)
                requires sx == 1 || sx == -1, m >= 0;
            assert(-(m as int) <= m * sy <= m) by (nonlinear_arith)
                requires sy == 1 || sy == -1, m >= 0;
            assert(p.can_advance());
            p.lemma_advance_ok();
            lemma_line_coord_bound(p.inity as int, p.incx + sx - p.initx, p.slope_num as int, p.slope_den as int);
            lemma_line_coord_bound(p.initx as int, p.incy + sy - p.inity, p.slope_den as int, p.slope_num as int);
            assert(self.advanced_by(n) == p.advanced());
        }
    }
}

fn abs_i64(v: i64) -> (r: i64)
    requires
        v > i64::MIN,
    ensures
        r == abs(v as int),
{
    if v < 0 { -v } else { v }
}

proof fn lemma_div_trunc_bound(n: int, d: int)
    requires
        d != 0,
    ensures
        abs(div_trunc(n, d)) <= abs(n),
{
    assert(abs(n) / abs(d) <= abs(n)) by (nonlinear_arith)
        requires abs(d) >= 1, abs(n) >= 0;
    assert(abs(n) / abs(d) >= 0) by (nonlinear_arith)
        requires abs(d) >= 1, abs(n) >= 0;
}

proof fn lemma_line_coord_bound(other0: int, offset: int, num: int, den: int)
    requires
        -SPAWN_MAX <= other0 <= SPAWN_MAX,
        -(STEP_MAX + 1) <= offset <= STEP_MAX + 1,
        -2 * SPAWN_MAX <= num <= 2 * SPAWN_MAX,
    ensures
        -POS_MAX <= line_coord(other0, offset, num, den) <= POS_MAX,
{
    if den != 0 {
        assert(-0x200_0000_0020_0000 <= offset * num <= 0x200_0000_0020_0000) by (nonlinear_arith)
            requires
                -0x10_0000_0001 <= offset <= 0x10_0000_0001,
                -0x20_0000 <= num <= 0x20_0000,
        ;
        lemma_div_trunc_bound(offset * num, den);
    }
}

/// `other0 + offset * num / den` rounded toward zero, or `OFF_PLANE` when `den` is zero.
fn line_value(other0: i64, offset: i64, num: i64, den: i64) -> (r: i64)
    requires
        -SPAWN_MAX <= other0 <= SPAWN_MAX,
        -(STEP_MAX + 1) <= offset <= STEP_MAX + 1,
        -2 * SPAWN_MAX <= num <= 2 * SPAWN_MAX,
        -2 * SPAWN_MAX <= den <= 2 * SPAWN_MAX,
    ensures
        r == line_coord(other0 as int, offset as int, num as int, den as int),
        -POS_MAX <= r <= POS_MAX,
{
    if den == 0 {
        OFF_PLANE
    } else {
        assert(-0x200_0000_0020_0000 <= offset * num <= 0x200_0000_0020_0000) by (nonlinear_arith)
            requires
                -0x10_0000_0001 <= offset <= 0x10_0000_0001,
                -0x20_0000 <= num <= 0x20_0000,
        ;
        let p = offset * num;
        let mp = abs_i64(p);
        let md = abs_i64(den);
        let q = mp / md;
        proof {
            lemma_div_trunc_bound(p as int, den as int);
        }
        if (p < 0) == (den < 0) {
            other0 + q
        } else {
            other0 - q
        }
    }
}

impl Object for Asteroid {
    open spec fn well_formed(&self) -> bool {
        &&& -SPAWN_MAX <= self.initx <= SPAWN_MAX
        &&& -SPAWN_MAX <= self.inity <= SPAWN_MAX
        &&& -2 * SPAWN_MAX <= self.dirx <= 2 * SPAWN_MAX
        &&& -2 * SPAWN_MAX <= self.diry <= 2 * SPAWN_MAX
        &&& -2 * SPAWN_MAX <= self.slope_num <= 2 * SPAWN_MAX
        &&& -2 * SPAWN_MAX <= self.slope_den <= 2 * SPAWN_MAX
        &&& abs(self.incx - self.initx) <= STEP_MAX
        &&& abs(self.incy - self.inity) <= STEP_MAX
        &&& -POS_MAX <= self.x <= POS_MAX
        &&& -POS_MAX <= self.y <= POS_MAX
        &&& 0 <= self.size <= SIZE_MAX
    }

    open spec fn shape(&self) -> Seq<Vertex> {
        square_shape(self.x as int, self.y as int, self.size as int)
    }

    open spec fn position(&self) -> (int, int) {
        (self.x as int, self.y as int)
    }

    open spec fn extent(&self) -> int {
        self.size as int
    }

    proof fn lemma_shape_ok(&self) {
        lemma_square_ok(self.x as int, self.y as int, self.size as int);
    }

    fn get_vertices(&self) -> (r: Vec<Vertex>) {
        square_vertices(self.x, self.y, self.size)
    }

    fn get_size(&self) -> (r: i64) {
        self.size
    }

    fn get_pos(&self) -> (r: (i64, i64)) {
        (self.x, self.y)
    }
}

} // verus!
