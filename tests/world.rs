use asteroids::object::Object;
use asteroids::asteroid::Asteroid;
use asteroids::bullet::Bullet;
use asteroids::ship::Ship;
use asteroids::world::{
    advance_frame, check_collision, check_collisions, create_asteroids, replenish_asteroids,
    MAX_ASTEROID_SIZE, MIN_ASTEROID_SIZE,
};
use asteroids::UNIT;

#[test]
fn ship_hit_clears_everything_and_resets_ship() {
    let mut ship = Ship::new(10000, 0, 0);
    let mut asteroids = vec![
        Asteroid::new(1000, -60000, 60000, 0, 0),
        Asteroid::new(10000, 0, 10000, 0, 0),
        Asteroid::new(1000, 60000, 60000, 0, 0),
    ];
    let mut bullets = vec![Bullet::new(2000, 30000, 30000, 0, 30)];
    assert!(check_collision(&ship, &asteroids[1]));
    check_collisions(&mut ship, &mut asteroids, &mut bullets);
    assert!(asteroids.is_empty());
    assert!(bullets.is_empty());
    assert_eq!(ship.get_pos(), (0, 0));
    assert_eq!(ship.get_angle(), 0);
}

#[test]
fn ship_hit_resets_moved_and_rotated_ship() {
    let mut ship = Ship::new(10000, 0, 0);
    ship.rotate_left();
    ship.set_pos(50000, 50000);
    let mut asteroids = vec![Asteroid::new(10000, 50000, 60000, 0, 0)];
    let mut bullets = vec![];
    check_collisions(&mut ship, &mut asteroids, &mut bullets);
    assert!(asteroids.is_empty());
    assert_eq!((ship.get_pos(), ship.get_angle(), ship.get_size()), ((0, 0), 0, 10000));
}

#[test]
fn bullet_leaving_plane_is_removed() {
    let mut ship = Ship::new(10000, 0, 0);
    let mut asteroids = vec![Asteroid::new(1000, -70000, -70000, 0, 0)];
    // heading 0 points up: velocity 3 * 0.0001 per frame along y
    let mut bullets = vec![Bullet::new(2000, 0, 0, 0, 30)];
    let mut frames = 0;
    while bullets[0].get_pos().1 < UNIT {
        bullets[0].update_position();
        frames += 1;
        if bullets[0].get_pos().1 < UNIT {
            check_collisions(&mut ship, &mut asteroids, &mut bullets);
            assert_eq!(bullets.len(), 1);
        }
    }
    assert_eq!(frames, 3334);
    check_collisions(&mut ship, &mut asteroids, &mut bullets);
    assert!(bullets.is_empty());
    assert_eq!(asteroids.len(), 1);
}

#[test]
fn replenish_below_floor_adds_nine() {
    let ship = Ship::new(10000, 0, 0);
    let mut asteroids = vec![
        Asteroid::new(5000, 10000, 10000, 0, 0),
        Asteroid::new(5000, 20000, 10000, 0, 0),
        Asteroid::new(5000, 30000, 10000, 0, 0),
        Asteroid::new(5000, 40000, 10000, 0, 0),
    ];
    let before = asteroids.clone();
    replenish_asteroids(&mut asteroids, &ship);
    assert_eq!(asteroids.len(), 13);
    assert_eq!(&asteroids[..4], &before[..]);
}

#[test]
fn replenish_at_floor_adds_nothing() {
    let ship = Ship::new(10000, 0, 0);
    let mut asteroids: Vec<Asteroid> = (0..5).map(|k| Asteroid::new(5000, k * 1000, 0, 0, 0)).collect();
    replenish_asteroids(&mut asteroids, &ship);
    assert_eq!(asteroids.len(), 5);
}

#[test]
fn create_asteroids_adds_one_fewer_than_asked() {
    let mut ship = Ship::new(10000, 0, 0);
    ship.set_pos(3000, -4000);
    let mut asteroids = vec![Asteroid::new(5000, 0, 0, 0, 0)];
    create_asteroids(&mut asteroids, &ship, 10);
    assert_eq!(asteroids.len(), 10);
    for a in &asteroids[1..] {
        let (x, y) = a.get_pos();
        assert!(-UNIT <= x && x < UNIT);
        assert!(-UNIT <= y && y < UNIT);
        assert!(MIN_ASTEROID_SIZE <= a.size && a.size < MAX_ASTEROID_SIZE);
        assert_eq!((a.dirx, a.diry), (3000 - x, -4000 - y));
        assert_eq!((a.initx, a.inity, a.incx, a.incy), (x, y, x, y));
    }
    let first = asteroids[1].get_pos();
    assert!(asteroids[2..].iter().any(|a| a.get_pos() != first));
}

#[test]
fn create_asteroids_with_zero_or_one_adds_none() {
    let ship = Ship::new(10000, 0, 0);
    let mut asteroids = vec![];
    create_asteroids(&mut asteroids, &ship, 0);
    assert!(asteroids.is_empty());
    create_asteroids(&mut asteroids, &ship, 1);
    assert!(asteroids.is_empty());
    create_asteroids(&mut asteroids, &ship, 2);
    assert_eq!(asteroids.len(), 1);
}

#[test]
fn bullet_hit_removes_bullet_and_asteroid() {
    let mut ship = Ship::new(10000, 0, 0);
    let mut asteroids = vec![
        Asteroid::new(1000, -60000, -60000, 0, 0),
        Asteroid::new(20000, 50000, 50000, 0, 0),
    ];
    let mut bullets = vec![Bullet::new(2000, -50000, 0, 0, 30), Bullet::new(2000, 55000, 45000, 0, 30)];
    assert!(check_collision(&bullets[1], &asteroids[1]));
    check_collisions(&mut ship, &mut asteroids, &mut bullets);
    assert_eq!(asteroids, vec![Asteroid::new(1000, -60000, -60000, 0, 0)]);
    assert_eq!(bullets, vec![Bullet::new(2000, -50000, 0, 0, 30)]);
    assert_eq!(ship.get_pos(), (0, 0));
}

#[test]
fn bullet_is_used_up_by_the_first_asteroid_it_hits() {
    let mut ship = Ship::new(10000, 0, 0);
    let first = Asteroid::new(20000, 50000, 50000, 0, 0);
    let second = Asteroid::new(20000, 51000, 50000, 0, 0);
    let mut asteroids = vec![first, second];
    let mut bullets = vec![Bullet::new(2000, 55000, 45000, 0, 30)];
    check_collisions(&mut ship, &mut asteroids, &mut bullets);
    assert_eq!(asteroids, vec![second]);
    assert!(bullets.is_empty());
}

#[test]
fn asteroid_outside_plane_is_removed() {
    let mut ship = Ship::new(10000, 0, 0);
    let mut outside = Asteroid::new(1000, 99999, 0, 200000, 0);
    outside.update_position();
    assert_eq!(outside.get_pos().0, UNIT);
    let inside = Asteroid::new(1000, -50000, 0, 0, 0);
    let mut asteroids = vec![outside, inside];
    let mut bullets = vec![];
    check_collisions(&mut ship, &mut asteroids, &mut bullets);
    assert_eq!(asteroids, vec![inside]);
}

#[test]
fn advance_frame_moves_then_resolves() {
    let mut ship = Ship::new(10000, 0, 0);
    let mut asteroids = vec![Asteroid::new(1000, -50000, -20000, 0, 0), Asteroid::new(1000, 0, 99999, 0, 200000)];
    let mut bullets = vec![Bullet::new(2000, 10000, 10000, 7, -30)];
    advance_frame(&mut ship, &mut asteroids, &mut bullets);
    assert_eq!(asteroids.len(), 1);
    assert_eq!(asteroids[0].get_pos(), (-49999, -20000 + 50000 / 20000));
    assert_eq!(bullets.len(), 1);
    assert_eq!(bullets[0].get_pos(), (10007, 9970));
}

#[test]
fn bullet_outside_plane_is_removed_without_asteroids() {
    let mut ship = Ship::new(10000, 0, 0);
    let mut asteroids = vec![Asteroid::new(1000, 99999, 0, 200000, 0)];
    asteroids[0].update_position();
    let inside = Bullet::new(2000, 0, 50000, 0, 30);
    let mut bullets = vec![Bullet::new(2000, 0, UNIT, 0, 30), inside, Bullet::new(2000, -UNIT - 5, 0, 0, 30)];
    check_collisions(&mut ship, &mut asteroids, &mut bullets);
    assert!(asteroids.is_empty());
    assert_eq!(bullets, vec![inside]);

    let mut none: Vec<Asteroid> = vec![];
    let mut lone = vec![Bullet::new(2000, 0, UNIT, 0, 30)];
    check_collisions(&mut ship, &mut none, &mut lone);
    assert!(lone.is_empty());
}

#[test]
fn bullet_in_upper_left_half_of_asteroid_destroys_it() {
    let mut ship = Ship::new(10000, 0, 0);
    let mut asteroids = vec![Asteroid::new(20000, 50000, 50000, 0, 0)];
    let mut bullets = vec![Bullet::new(10, 42000, 58000, 0, 30)];
    assert!(check_collision(&bullets[0], &asteroids[0]));
    check_collisions(&mut ship, &mut asteroids, &mut bullets);
    assert!(asteroids.is_empty());
    assert!(bullets.is_empty());
}

#[test]
fn ship_vertex_in_upper_left_half_of_asteroid_resets() {
    let mut ship = Ship::new(10000, 0, 0);
    ship.rotate_right();
    let mut asteroids = vec![Asteroid::new(6000, 2000, 6000, 0, 0)];
    let mut bullets = vec![Bullet::new(2000, 30000, 30000, 0, 30)];
    check_collisions(&mut ship, &mut asteroids, &mut bullets);
    assert!(asteroids.is_empty());
    assert!(bullets.is_empty());
    assert_eq!((ship.get_pos(), ship.get_angle()), ((0, 0), 0));
}
