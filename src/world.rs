use vstd::prelude::*;
use rand::Rng;
use crate::asteroid::{Asteroid, SPAWN_MAX};
use crate::bullet::Bullet;
use crate::geometry::{collides, shape_supported, shapes_collide};
use crate::object::Object;
use crate::ship::Ship;
use crate::{out_of_plane, UNIT};

verus! {

/// Smallest size of a spawned asteroid (0.05).
pub const MIN_ASTEROID_SIZE: i64 = 5000;

/// Bound, exclusive, on the size of a spawned asteroid (0.3).
pub const MAX_ASTEROID_SIZE: i64 = 30000;

/// Below this many asteroids the population is replenished.
pub const ASTEROID_FLOOR: usize = 5;

/// The batch count passed to `create_asteroids` when replenishing.
pub const ASTEROID_BATCH: u32 = 10;

/// Relies on rand::thread_rng and rand::Rng::gen_range: a value drawn from
/// `low..high`, which must not be empty.
#[verifier::external_body]
fn random_in(low: i64, high: i64) -> (r: i64)
    requires
        low < high,
    ensures
        low <= r < high,
{
    rand::thread_rng().gen_range(low..high)
}

pub open spec fn all_asteroids_ok(s: Seq<Asteroid>) -> bool {
    forall|k: int| 0 <= k < s.len() ==> (#[trigger] s[k]).well_formed()
}

pub open spec fn all_bullets_ok(s: Seq<Bullet>) -> bool {
    forall|k: int| 0 <= k < s.len() ==> (#[trigger] s[k]).well_formed()
}

/// `a` is a fresh asteroid inside the plane with a size in the spawn range,
/// aimed at `(shipx, shipy)`.
pub open spec fn spawned_toward(a: Asteroid, shipx: int, shipy: int) -> bool {
    &&& -UNIT <= a.x < UNIT
    &&& -UNIT <= a.y < UNIT
    &&& MIN_ASTEROID_SIZE <= a.size < MAX_ASTEROID_SIZE
    &&& a == Asteroid::spawned(a.size as int, a.x as int, a.y as int, shipx, shipy)
}

/// Number of asteroids `create_asteroids` adds for a batch count `number`.
pub open spec fn batch_yield(number: int) -> int {
    if number >= 1 { number - 1 } else { 0 }
}

/// Appends `number - 1` asteroids, each at a random position in `[-1, 1)²`
/// with a random size in `[0.05, 0.3)`, aimed at the ship's position.
pub fn create_asteroids(asteroids: &mut Vec<Asteroid>, ship: &Ship, number: u32)
    requires
        -SPAWN_MAX <= ship.x <= SPAWN_MAX,
        -SPAWN_MAX <= ship.y <= SPAWN_MAX,
        old(asteroids)@.len() + number <= usize::MAX,
    ensures
        final(asteroids)@.len() == old(asteroids)@.len() + batch_yield(number as int),
        final(asteroids)@.subrange(0, old(asteroids)@.len() as int) == old(asteroids)@,
        forall|k: int|
            old(asteroids)@.len() <= k < final(asteroids)@.len() ==> spawned_toward(
                #[trigger] final(asteroids)@[k],
                ship.x as int,
                ship.y as int,
            ),
{
    let ship_pos = ship.get_pos();
    let ghost start = asteroids@;
    let mut n: u32 = 1;
    while n < number
        invariant
            1 <= n,
            n <= number || n == 1,
            ship_pos == (ship.x, ship.y),
            -SPAWN_MAX <= ship.x <= SPAWN_MAX,
            -SPAWN_MAX <= ship.y <= SPAWN_MAX,
            start.len() + number <= usize::MAX,
            asteroids@.len() == start.len() + n - 1,
            asteroids@.subrange(0, start.len() as int) == start,
            forall|k: int|
                start.len() <= k < asteroids@.len() ==> spawned_toward(
                    #[trigger] asteroids@[k],
                    ship.x as int,
                    ship.y as int,
                ),
        decreases number - n,
    {
        let x = random_in(-UNIT, UNIT);
        let y = random_in(-UNIT, UNIT);
        let size = random_in(MIN_ASTEROID_SIZE, MAX_ASTEROID_SIZE);
        let asteroid = Asteroid::new(size, x, y, ship_pos.0, ship_pos.1);
        asteroids.push(asteroid);
        assert(asteroids@.subrange(0, start.len() as int) =~= start);
        n = n + 1;
    }
}

/// Tops the population up with a batch whenever it has fallen below the floor.
pub fn replenish_asteroids(asteroids: &mut Vec<Asteroid>, ship: &Ship)
    requires
        -SPAWN_MAX <= ship.x <= SPAWN_MAX,
        -SPAWN_MAX <= ship.y <= SPAWN_MAX,
    ensures
        old(asteroids)@.len() >= ASTEROID_FLOOR ==> final(asteroids)@ == old(asteroids)@,
        old(asteroids)@.len() < ASTEROID_FLOOR ==> {
            &&& final(asteroids)@.len() == old(asteroids)@.len() + batch_yield(ASTEROID_BATCH as int)
            &&& final(asteroids)@.subrange(0, old(asteroids)@.len() as int) == old(asteroids)@
            &&& forall|k: int|
                old(asteroids)@.len() <= k < final(asteroids)@.len() ==> spawned_toward(
                    #[trigger] final(asteroids)@[k],
                    ship.x as int,
                    ship.y as int,
                )
        },
{
    if asteroids.len() < ASTEROID_FLOOR {
        create_asteroids(asteroids, ship, ASTEROID_BATCH);
    }
}

/// Whether some vertex of `obj1` lies in `obj2`.
pub fn check_collision<A: Object, B: Object>(obj1: &A, obj2: &B) -> (r: bool)
    requires
        obj1.well_formed(),
        obj2.well_formed(),
        shape_supported(obj2.shape()),
    ensures
        r == collides(obj1.shape(), obj2.shape()),
{
    let obj1_vertices = obj1.get_vertices();
    let obj2_vertices = obj2.get_vertices();
    proof {
        obj1.lemma_shape_ok();
        obj2.lemma_shape_ok();
    }
    shapes_collide(&obj1_vertices, &obj2_vertices)
}

/// The asteroid has left the plane.
pub open spec fn asteroid_out(a: Asteroid) -> bool {
    out_of_plane(a.x as int, a.y as int)
}

/// The ship touches asteroid `a`, which is still inside the plane.
pub open spec fn ship_hits(ship: Ship, a: Asteroid) -> bool {
    !asteroid_out(a) && collides(ship.shape(), a.shape())
}

/// The ship touches some asteroid that is still inside the plane.
pub open spec fn ship_hit(ship: Ship, asts: Seq<Asteroid>) -> bool {
    exists|i: int| 0 <= i < asts.len() && ship_hits(ship, #[trigger] asts[i])
}

/// The bullet has left the plane.
pub open spec fn bullet_out(b: Bullet) -> bool {
    out_of_plane(b.x as int, b.y as int)
}

/// Bullet `b`, inside the plane, touches asteroid `a`, inside the plane.
pub open spec fn bullet_strikes(b: Bullet, a: Asteroid) -> bool {
    !asteroid_out(a) && !bullet_out(b) && collides(b.shape(), a.shape())
}

/// Bullet `b` struck one of the first `i` asteroids.
pub open spec fn spent_before(b: Bullet, asts: Seq<Asteroid>, i: int) -> bool {
    exists|k: int| 0 <= k < i && bullet_strikes(b, #[trigger] asts[k])
}

/// Asteroid `i` is removed: it left the plane, or a bullet that struck no
/// earlier asteroid strikes it.
pub open spec fn asteroid_destroyed(asts: Seq<Asteroid>, buls: Seq<Bullet>, i: int) -> bool {
    asteroid_out(asts[i]) || exists|j: int|
        0 <= j < buls.len() && !spent_before(#[trigger] buls[j], asts, i) && bullet_strikes(buls[j], asts[i])
}

/// Bullet `b` is removed: it left the plane, or it struck an asteroid.
pub open spec fn bullet_destroyed(b: Bullet, asts: Seq<Asteroid>) -> bool {
    bullet_out(b) || spent_before(b, asts, asts.len() as int)
}

/// `s` without the entries whose mark is set.
pub open spec fn remove_marked<T>(s: Seq<T>, marked: Seq<bool>) -> Seq<T>
    decreases s.len(),
{
    if s.len() == 0 {
        seq![]
    } else {
        let rest = remove_marked(s.drop_last(), marked);
        if marked[s.len() - 1] { rest } else { rest.push(s.last()) }
    }
}

/// The asteroids that remain after one collision pass.
pub open spec fn resolved_asteroids(ship: Ship, asts: Seq<Asteroid>, buls: Seq<Bullet>) -> Seq<Asteroid> {
    if ship_hit(ship, asts) {
        seq![]
    } else {
        remove_marked(asts, Seq::new(asts.len(), |i: int| asteroid_destroyed(asts, buls, i)))
    }
}

/// The bullets that remain after one collision pass.
pub open spec fn resolved_bullets(ship: Ship, asts: Seq<Asteroid>, buls: Seq<Bullet>) -> Seq<Bullet> {
    if ship_hit(ship, asts) {
        seq![]
    } else {
        remove_marked(buls, Seq::new(buls.len(), |j: int| bullet_destroyed(buls[j], asts)))
    }
}

/// The ship after one collision pass: back at the origin, heading up, if it
/// was hit.
pub open spec fn resolved_ship(ship: Ship, asts: Seq<Asteroid>) -> Ship {
    if ship_hit(ship, asts) { Ship { x: 0, y: 0, angle: 0, ..ship } } else { ship }
}

proof fn lemma_spent_step(b: Bullet, asts: Seq<Asteroid>, i: int)
    requires
        0 <= i < asts.len(),
    ensures
        spent_before(b, asts, i + 1) == (spent_before(b, asts, i) || bullet_strikes(b, asts[i])),
{
    if spent_before(b, asts, i + 1) {
        let k = choose|k: int| 0 <= k < i + 1 && bullet_strikes(b, #[trigger] asts[k]);
        if k < i {
            assert(spent_before(b, asts, i));
        }
    }
    if spent_before(b, asts, i) {
        let k = choose|k: int| 0 <= k < i && bullet_strikes(b, #[trigger] asts[k]);
        assert(spent_before(b, asts, i + 1));
    }
    if bullet_strikes(b, asts[i]) {
        assert(spent_before(b, asts, i + 1));
    }
}

/// Keeps the entries of `v` whose mark is clear, in order.
fn retain_unmarked<T: Copy>(v: &mut Vec<T>, marked: &Vec<bool>)
    requires
        marked@.len() == old(v)@.len(),
    ensures
        final(v)@ == remove_marked(old(v)@, marked@),
{
    let mut kept: Vec<T> = Vec::new();
    let mut i: usize = 0;
    while i < v.len()
        invariant
            0 <= i <= v@.len(),
            marked@.len() == v@.len(),
            kept@ == remove_marked(v@.subrange(0, i as int), marked@),
        decreases v@.len() - i,
    {
        proof {
            let next = v@.subrange(0, i + 1);
            assert(next.drop_last() =~= v@.subrange(0, i as int));
        }
        if !marked[i] {
            kept.push(v[i]);
        }
        i += 1;
    }
    assert(v@.subrange(0, v@.len() as int) =~= v@);
    *v = kept;
}

/// One collision pass. Asteroids that left the plane are removed. If the ship
/// touches an asteroid inside the plane, every asteroid and bullet is removed
/// and the ship goes back to the origin, heading up. Otherwise every bullet
/// that left the plane is removed, and the asteroids are scanned in order: a
/// bullet inside the plane that has struck no earlier asteroid and touches
/// this one is removed together with it.
pub fn check_collisions(ship: &mut Ship, asteroids: &mut Vec<Asteroid>, bullets: &mut Vec<Bullet>)
    requires
        old(ship).well_formed(),
        all_asteroids_ok(old(asteroids)@),
        all_bullets_ok(old(bullets)@),
    ensures
        *final(ship) == resolved_ship(*old(ship), old(asteroids)@),
        final(asteroids)@ == resolved_asteroids(*old(ship), old(asteroids)@, old(bullets)@),
        final(bullets)@ == resolved_bullets(*old(ship), old(asteroids)@, old(bullets)@),
{
    let ghost asts = asteroids@;
    let ghost buls = bullets@;
    let n_a = asteroids.len();
    let n_b = bullets.len();

    let mut bullets_marked: Vec<bool> = Vec::new();
    let mut j: usize = 0;
    while j < n_b
        invariant
            0 <= j <= n_b,
            n_b == buls.len(),
            bullets@ == buls,
            bullets_marked@.len() == j,
            forall|k: int| 0 <= k < j ==> #[trigger] bullets_marked@[k] == bullet_out(buls[k]),
        decreases n_b - j,
    {
        let bullet_pos = bullets[j].get_pos();
        bullets_marked.push(
            bullet_pos.0 >= UNIT || bullet_pos.0 <= -UNIT || bullet_pos.1 >= UNIT || bullet_pos.1 <= -UNIT,
        );
        j += 1;
    }

    let ship_vertices = ship.get_vertices();
    proof {
        ship.lemma_shape_ok();
    }
    let mut asteroids_marked: Vec<bool> = Vec::new();
    let mut hit = false;
    let mut i: usize = 0;
    while i < n_a && !hit
        invariant
            asteroids@ == asts,
            bullets@ == buls,
            n_a == asts.len(),
            n_b == buls.len(),
            all_asteroids_ok(asts),
            all_bullets_ok(buls),
            ship.well_formed(),
            ship_vertices@ == ship.shape(),
            crate::geometry::all_vertices_ok(ship_vertices@),
            0 <= i <= n_a,
            asteroids_marked@.len() == i,
            bullets_marked@.len() == n_b,
            forall|k: int| 0 <= k < i ==> #[trigger] asteroids_marked@[k] == asteroid_destroyed(asts, buls, k),
            forall|k: int| 0 <= k < n_b ==> #[trigger] bullets_marked@[k] == (bullet_out(buls[k])
                || spent_before(buls[k], asts, i as int)),
            hit ==> ship_hit(*ship, asts),
            forall|k: int| 0 <= k < i ==> !ship_hits(*ship, #[trigger] asts[k]),
        decreases n_a - i + (if hit { 0int } else { 1int }),
    {
        let aster = asteroids[i];
        let pos = aster.get_pos();
        if pos.0 >= UNIT || pos.0 <= -UNIT || pos.1 >= UNIT || pos.1 <= -UNIT {
            proof {
                assert forall|k: int| 0 <= k < n_b implies
                    #[trigger] bullets_marked@[k] == (bullet_out(buls[k]) || spent_before(buls[k], asts, i + 1)) by {
                    lemma_spent_step(buls[k], asts, i as int);
                }
            }
            asteroids_marked.push(true);
            i += 1;
        } else {
            let aster_vertices = aster.get_vertices();
            proof {
                aster.lemma_shape_ok();
            }
            if shapes_collide(&ship_vertices, &aster_vertices) {
                assert(ship_hits(*ship, asts[i as int]));
                hit = true;
            } else {
                let mut destroyed = false;
                let mut j: usize = 0;
                while j < n_b
                    invariant
                        asteroids@ == asts,
                        bullets@ == buls,
                        n_a == asts.len(),
                        n_b == buls.len(),
                        0 <= i < n_a,
                        aster == asts[i as int],
                        !asteroid_out(aster),
                        aster_vertices@ == aster.shape(),
                        crate::geometry::all_vertices_ok(aster_vertices@),
                        shape_supported(aster_vertices@),
                        all_bullets_ok(buls),
                        0 <= j <= n_b,
                        bullets_marked@.len() == n_b,
                        forall|k: int| 0 <= k < j ==> #[trigger] bullets_marked@[k] == (bullet_out(buls[k])
                            || spent_before(buls[k], asts, i + 1)),
                        forall|k: int| j <= k < n_b ==> #[trigger] bullets_marked@[k] == (bullet_out(buls[k])
                            || spent_before(buls[k], asts, i as int)),
                        destroyed == exists|k: int| 0 <= k < j && !spent_before(#[trigger] buls[k], asts, i as int)
                            && bullet_strikes(buls[k], aster),
                    decreases n_b - j,
                {
                    proof {
                        lemma_spent_step(buls[j as int], asts, i as int);
                    }
                    if !bullets_marked[j] {
                        let bullet_vertices = bullets[j].get_vertices();
                        proof {
                            buls[j as int].lemma_shape_ok();
                        }
                        if shapes_collide(&bullet_vertices, &aster_vertices) {
                            destroyed = true;
                            bullets_marked.set(j, true);
                        }
                    }
                    j += 1;
                }
                asteroids_marked.push(destroyed);
                i += 1;
            }
        }
    }

    if hit {
        asteroids.clear();
        bullets.clear();
        ship.set_pos(0, 0);
        ship.set_angle(0);
        assert(asteroids@ =~= seq![]);
        assert(bullets@ =~= seq![]);
    } else {
        assert(!ship_hit(*ship, asts));
        assert(asteroids_marked@ =~= Seq::new(asts.len(), |k: int| asteroid_destroyed(asts, buls, k)));
        assert(bullets_marked@ =~= Seq::new(buls.len(), |k: int| bullet_destroyed(buls[k], asts)));
        retain_unmarked(asteroids, &asteroids_marked);
        retain_unmarked(bullets, &bullets_marked);
    }
}

/// Every asteroid can take one more step.
pub open spec fn all_asteroids_can_advance(s: Seq<Asteroid>) -> bool {
    forall|k: int| 0 <= k < s.len() ==> (#[trigger] s[k]).well_formed() && s[k].can_advance()
}

/// Every bullet can take one more step.
pub open spec fn all_bullets_can_advance(s: Seq<Bullet>) -> bool {
    forall|k: int| 0 <= k < s.len() ==> (#[trigger] s[k]).well_formed() && s[k].can_advance()
}

/// Each asteroid after one step.
pub open spec fn advanced_asteroids(s: Seq<Asteroid>) -> Seq<Asteroid> {
    s.map_values(|a: Asteroid| a.advanced())
}

/// Each bullet after one step.
pub open spec fn advanced_bullets(s: Seq<Bullet>) -> Seq<Bullet> {
    s.map_values(|b: Bullet| b.advanced())
}

/// One frame of the simulation: every asteroid and bullet moves one step,
/// then one collision pass runs on the moved populations.
pub fn advance_frame(ship: &mut Ship, asteroids: &mut Vec<Asteroid>, bullets: &mut Vec<Bullet>)
    requires
        old(ship).well_formed(),
        all_asteroids_can_advance(old(asteroids)@),
        all_bullets_can_advance(old(bullets)@),
    ensures
        *final(ship) == resolved_ship(*old(ship), advanced_asteroids(old(asteroids)@)),
        final(asteroids)@ == resolved_asteroids(
            *old(ship),
            advanced_asteroids(old(asteroids)@),
            advanced_bullets(old(bullets)@),
        ),
        final(bullets)@ == resolved_bullets(
            *old(ship),
            advanced_asteroids(old(asteroids)@),
            advanced_bullets(old(bullets)@),
        ),
{
    let ghost asts = asteroids@;
    let ghost buls = bullets@;
    let mut i: usize = 0;
    while i < asteroids.len()
        invariant
            0 <= i <= asteroids@.len(),
            asteroids@.len() == asts.len(),
            all_asteroids_can_advance(asts),
            forall|k: int| 0 <= k < i ==> #[trigger] asteroids@[k] == asts[k].advanced(),
            forall|k: int| i <= k < asts.len() ==> #[trigger] asteroids@[k] == asts[k],
            forall|k: int| 0 <= k < i ==> (#[trigger] asteroids@[k]).well_formed(),
        decreases asts.len() - i,
    {
        let mut aster = asteroids[i];
        aster.update_position();
        asteroids.set(i, aster);
        i += 1;
    }
    let mut j: usize = 0;
    while j < bullets.len()
        invariant
            0 <= j <= bullets@.len(),
            bullets@.len() == buls.len(),
            all_bullets_can_advance(buls),
            forall|k: int| 0 <= k < j ==> #[trigger] bullets@[k] == buls[k].advanced(),
            forall|k: int| j <= k < buls.len() ==> #[trigger] bullets@[k] == buls[k],
            forall|k: int| 0 <= k < j ==> (#[trigger] bullets@[k]).well_formed(),
        decreases buls.len() - j,
    {
        let mut bullet = bullets[j];
        bullet.update_position();
        bullets.set(j, bullet);
        j += 1;
    }
    assert(asteroids@ =~= advanced_asteroids(asts));
    assert(bullets@ =~= advanced_bullets(buls));
    check_collisions(ship, asteroids, bullets);
}

} // verus!
