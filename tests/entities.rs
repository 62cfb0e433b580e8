use asteroids::asteroid::{Asteroid, OFF_PLANE};
use asteroids::bullet::Bullet;
use asteroids::geometry::Vertex;
use asteroids::object::Object;
use asteroids::ship::{Ship, WRAP_INSET};
use asteroids::UNIT;

#[test]
fn asteroid_new_aims_at_ship() {
    let a = Asteroid::new(10000, 20000, -30000, 5000, 7000);
    assert_eq!(a.get_pos(), (20000, -30000));
    assert_eq!(a.get_size(), 10000);
    assert_eq!((a.dirx, a.diry), (-15000, 37000));
    assert_eq!((a.initx, a.inity, a.incx, a.incy), (20000, -30000, 20000, -30000));
    assert_eq!(
        a.get_vertices(),
        vec![
            Vertex { x: 15000, y: -35000 },
            Vertex { x: 25000, y: -35000 },
            Vertex { x: 25000, y: -25000 },
            Vertex { x: 25000, y: -25000 },
            Vertex { x: 15000, y: -25000 },
            Vertex { x: 15000, y: -35000 },
        ]
    );
}

#[test]
fn asteroid_steps_along_x_when_x_dominates() {
    let mut a = Asteroid::new(1000, 0, 0, 50000, 20000);
    for n in 1..=10i64 {
        a.update_position();
        assert_eq!(a.get_pos(), (n, n * 50000 / 20000));
    }
    assert_eq!(a.get_pos(), (10, 25));
    assert_eq!(a.get_vertices()[0], Vertex { x: 10 - 500, y: 25 - 500 });
}

#[test]
fn asteroid_steps_along_y_when_y_dominates() {
    let mut a = Asteroid::new(1000, 0, 0, -20000, -50000);
    for _ in 0..10 {
        a.update_position();
    }
    assert_eq!(a.get_pos(), (-25, -10));
}

#[test]
fn asteroid_derived_coordinate_rounds_toward_zero() {
    let mut a = Asteroid::new(1000, 0, 0, 30000, 20000);
    let mut ys = Vec::new();
    for _ in 0..3 {
        a.update_position();
        ys.push(a.get_pos().1);
    }
    assert_eq!(ys, vec![1, 3, 4]);

    let mut b = Asteroid::new(1000, 0, 0, -30000, 20000);
    let mut ys = Vec::new();
    for _ in 0..3 {
        b.update_position();
        ys.push(b.get_pos());
    }
    assert_eq!(ys, vec![(-1, 1), (-2, 3), (-3, 4)]);
}

#[test]
fn asteroid_with_zero_divisor_leaves_plane() {
    let mut a = Asteroid::new(1000, 0, 0, 50000, 0);
    a.update_position();
    assert_eq!(a.get_pos(), (1, OFF_PLANE));
    let mut b = Asteroid::new(1000, 0, 0, 0, 50000);
    b.update_position();
    assert_eq!(b.get_pos(), (OFF_PLANE, 1));
}

#[test]
fn asteroid_update_ship_pos_keeps_spawn_slope() {
    let mut a = Asteroid::new(1000, 100, 200, 0, 0);
    let mut twin = a;
    a.update_ship_pos((5000, -7000));
    assert_eq!((a.dirx, a.diry), (4900, -7200));
    assert_eq!((a.slope_num, a.slope_den), (-100, -200));
    assert_eq!(a.get_pos(), (100, 200));
    assert_eq!((a.initx, a.inity), (100, 200));
    for _ in 0..20 {
        a.update_position();
        twin.update_position();
        assert_eq!(a.get_pos(), twin.get_pos());
    }
    assert_eq!(a.get_pos(), (100 + (-20 * -200) / -100, 200 - 20));
}

#[test]
fn asteroid_moves_one_unit_per_step_for_many_steps() {
    let mut a = Asteroid::new(1000, 40000, -40000, -60000, 0);
    for _ in 0..5000 {
        a.update_position();
    }
    let (x, y) = a.get_pos();
    assert_eq!(x, 40000 - 5000);
    assert_eq!(y, -40000 + (-5000i64 * -100000) / 40000);
}

#[test]
fn bullet_moves_linearly() {
    let mut b = Bullet::new(2000, 100, 200, 21, -7);
    for _ in 0..100 {
        b.update_position();
    }
    assert_eq!(b.get_pos(), (100 + 2100, 200 - 700));
    assert_eq!(b.get_size(), 2000);
    assert_eq!(b.get_vertices()[2], Vertex { x: 2200 + 1000, y: -500 + 1000 });
}

#[test]
fn ship_new_has_unrotated_triangle() {
    let s = Ship::new(10000, 0, 0);
    assert_eq!(s.get_angle(), 0);
    assert_eq!(s.get_pos(), (0, 0));
    assert_eq!(s.get_size(), 10000);
    assert_eq!(
        s.get_vertices(),
        vec![Vertex { x: 0, y: 5773 }, Vertex { x: -5000, y: -2886 }, Vertex { x: 5000, y: -2886 }]
    );
}

#[test]
fn ship_vertices_follow_position() {
    let mut s = Ship::new(10000, 0, 0);
    s.set_pos(300, -400);
    assert_eq!(s.get_vertices()[0], Vertex { x: 300, y: -400 + 5773 });
}

#[test]
fn ship_forward_then_backward_returns() {
    let mut s = Ship::new(10000, 1234, -5678);
    s.move_forward(-523, 999);
    assert_eq!(s.get_pos(), (1234 - 523, -5678 + 999));
    s.move_backward(-523, 999);
    assert_eq!(s.get_pos(), (1234, -5678));
}

#[test]
fn ship_wraps_at_edges_and_does_not_return() {
    let mut s = Ship::new(10000, 0, 95000);
    s.move_forward(0, 5000);
    assert_eq!(s.get_pos(), (0, -WRAP_INSET));
    s.move_backward(0, 5000);
    assert_eq!(s.get_pos(), (0, WRAP_INSET));

    let mut t = Ship::new(10000, -99500, 0);
    t.move_forward(-1000, 0);
    assert_eq!(t.get_pos(), (WRAP_INSET, 0));
    t.set_pos(UNIT - 1, 0);
    t.move_backward(-1, 0);
    assert_eq!(t.get_pos(), (-WRAP_INSET, 0));
}

#[test]
fn ship_rotates_three_degrees_per_event() {
    let mut s = Ship::new(10000, 0, 0);
    s.rotate_left();
    s.rotate_left();
    assert_eq!(s.get_angle(), 6);
    s.rotate_right();
    assert_eq!(s.get_angle(), 3);
    s.set_angle(-90);
    assert_eq!(s.get_angle(), -90);
}
