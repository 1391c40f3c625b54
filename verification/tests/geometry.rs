use pt::axis::Axis;
use pt::bbox::BBox2;
use pt::common::clamp;
use pt::vector::{Point2, Vector2};

#[test]
fn axis_next_cycles() {
    assert_eq!(Axis::X.NextAxis(), Axis::Y);
    assert_eq!(Axis::Y.NextAxis(), Axis::Z);
    assert_eq!(Axis::Z.NextAxis(), Axis::X);
    for a in [Axis::X, Axis::Y, Axis::Z] {
        assert_eq!(a.NextAxis().NextAxis().NextAxis(), a);
    }
}

#[test]
fn axis_other_axes() {
    assert_eq!(Axis::X.OtherAxes(), (Axis::Y, Axis::Z));
    assert_eq!(Axis::Y.OtherAxes(), (Axis::X, Axis::Z));
    assert_eq!(Axis::Z.OtherAxes(), (Axis::X, Axis::Y));
}

#[test]
fn axis_into_usize() {
    let x: usize = Axis::X.into();
    let y: usize = Axis::Y.into();
    let z: usize = Axis::Z.into();
    assert_eq!((x, y, z), (0, 1, 3));
}

#[test]
fn point_min_max() {
    let p = Point2::new(1i32, 5);
    let q = Point2::new(3i32, -2);
    assert_eq!(p.min(q), Point2::new(1, -2));
    assert_eq!(p.max(q), Point2::new(3, 5));
    let u = Point2::new(7u32, 0);
    assert_eq!(u.min(Point2::new(2, 9)), Point2::new(2, 0));
    assert_eq!(Vector2::new(4, 6), Vector2 { x: 4, y: 6 });
}

#[test]
fn bbox_new_orders_corners() {
    let b = BBox2::new(Point2::new(10i32, -1), Point2::new(2, 7));
    assert_eq!(b.min, Point2::new(2, -1));
    assert_eq!(b.max, Point2::new(10, 7));
    let n = BBox2::new(b.min, b.max);
    assert_eq!((n.min, n.max), (b.min, b.max));
}

#[test]
fn bbox_diagonal_and_area() {
    let b = BBox2::new(Point2::new(0u32, 0), Point2::new(40, 16));
    assert_eq!(b.diagonal(), Vector2::new(40, 16));
    assert_eq!(b.area(), 640);
    let c = BBox2::new(Point2::new(-3i32, 4), Point2::new(2, 10));
    assert_eq!(c.diagonal(), Vector2::new(5, 6));
    assert_eq!(c.area(), 30);
}

#[test]
fn clamp_limits() {
    assert_eq!(clamp(5, 0, 3), 3);
    assert_eq!(clamp(-5, 0, 3), 0);
    assert_eq!(clamp(2, 0, 3), 2);
    assert_eq!(clamp(0.5f32, 0., 255.), 0.5);
    assert_eq!(clamp(300.5f32, 0., 255.), 255.);
}

#[test]
fn vector2_scalar_ops() {
    let v = Vector2::new(6i32, -4);
    assert_eq!(-v, Vector2::new(-6, 4));
    assert_eq!(v + 1, Vector2::new(7, -3));
    assert_eq!(v - 1, Vector2::new(5, -5));
    assert_eq!(v * 3, Vector2::new(18, -12));
    assert_eq!(v / 2, Vector2::new(3, -2));
    let p = Point2::new(9u32, 3);
    assert_eq!(p + 1, Point2::new(10, 4));
    assert_eq!(p - 3, Point2::new(6, 0));
    assert_eq!(p * 2, Point2::new(18, 6));
    assert_eq!(p / 3, Point2::new(3, 1));
    assert_eq!(-Point2::new(1i64, -2), Point2::new(-1, 2));
}

#[test]
fn vector2_point2_arithmetic() {
    let a = Vector2::new(1i32, 2);
    let b = Vector2::new(10i32, 20);
    assert_eq!(a + b, Vector2::new(11, 22));
    assert_eq!(b - a, Vector2::new(9, 18));
    let p = Point2::new(5i32, 7);
    let q = Point2::new(2i32, 9);
    assert_eq!(p + q, Point2::new(7, 16));
    assert_eq!(p - q, Vector2::new(3, -2));
    assert_eq!(Point2::from(Vector2::new(4u32, 8)), Point2::new(4, 8));
}

#[test]
fn vector2_subtraction_undoes_addition() {
    let a = Vector2::new(-7i32, 12);
    let b = Vector2::new(30i32, -5);
    assert_eq!((a + b) - b, a);
    let p = Point2::new(3i32, -8);
    let q = Point2::new(-11i32, 4);
    assert_eq!(q + Point2::from(p - q), p);
}
