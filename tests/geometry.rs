use compositor::{Circle, Color, Extent, Geometry, Path, Point, Radius, Rectangle, RoundedRectangle};

#[test]
fn rectangle_edges_inflate_and_translate() {
    let r = Rectangle::new(100, 200, 200, 300);
    assert_eq!(r.right(), 300);
    assert_eq!(r.bottom(), 500);
    assert_eq!(r.inflate(10, 5), Rectangle::new(90, 195, 220, 310));
    assert_eq!(r.translate(&Point::new(-100, 50)), Rectangle::new(0, 250, 200, 300));
    assert_eq!(Rectangle::extent(4, 3), Rectangle::new(0, 0, 4, 3));
    assert_eq!(Rectangle::zero(), Rectangle::new(0, 0, 0, 0));
}

#[test]
fn rounded_rectangle_parts() {
    let r = RoundedRectangle::new(
        Rectangle::new(100, 200, 200, 300),
        Radius::new(5, 10),
        Radius::new(15, 20),
        Radius::new(25, 30),
        Radius::new(35, 40),
    );
    let radii = r.radii();
    assert_eq!(radii[0], Radius::new(5, 10));
    assert_eq!(radii[3], Radius::new(35, 40));
    assert_eq!(r.bounds(), Rectangle::new(100, 200, 200, 300));
    let moved = r.translate(&Point::new(1, 2));
    assert_eq!(moved.rectangle(), &Rectangle::new(101, 202, 200, 300));
    assert_eq!(moved.radii()[2], Radius::new(25, 30));
}

#[test]
fn circle_bounds_and_translate() {
    let c = Circle::new(Point::new(10, 20), 5);
    assert_eq!(c.bounds(), Rectangle::new(5, 15, 10, 10));
    assert_eq!(c.translate(&Point::new(1, 1)).center(), &Point::new(11, 21));
}

#[test]
fn geometry_bounds() {
    assert_eq!(Geometry::Empty.bounds(), Rectangle::zero());
    assert_eq!(Geometry::default(), Geometry::Empty);
    let path = Path::new(3, Rectangle::new(1, 2, 3, 4));
    assert_eq!(Geometry::Path(path).bounds(), Rectangle::new(1, 2, 3, 4));
    assert_eq!(Geometry::Circle(Circle::new(Point::zero(), 2)).bounds(), Rectangle::new(-2, -2, 4, 4));
}

#[test]
fn points_and_extents() {
    let p = Point::new(10, 20);
    assert_eq!(p.x(), 10);
    assert_eq!(p.y(), 20);
    assert_eq!(p.plus(&Point::new(1, 2)), Point::new(11, 22));
    assert_eq!(p.minus(&Point::new(1, 2)), Point::new(9, 18));
    assert_eq!(p.negated(), Point::new(-10, -20));
    let e = Extent::new(3, 4);
    assert_eq!((e.width(), e.height()), (3, 4));
    assert_eq!(Color::from_argb(0xFF00_FF00).as_argb(), 0xFF00_FF00);
}
