//! Value types of the scene plane: points, extents, rectangles, rounded
//! rectangles, circles, paths, colors and transformation matrices.
//!
//! Coordinates are whole numbers of scene units.
use vstd::prelude::*;

verus! {

/// A coordinate or a length in scene units.
pub type Scalar = i64;

/// True when `v` can be held in a `Scalar`.
pub open spec fn fits(v: int) -> bool {
    i64::MIN <= v <= i64::MAX
}

/// A position in the scene plane.
#[derive(Clone, Copy, Debug, PartialEq, Eq, Hash, Default, Structural)]
pub struct Point {
    pub x: Scalar,
    pub y: Scalar,
}

impl Point {
    pub fn zero() -> (r: Point)
        ensures
            r.x == 0 && r.y == 0,
    {
        Point { x: 0, y: 0 }
    }

    pub fn new(x: Scalar, y: Scalar) -> (r: Point)
        ensures
            r.x == x && r.y == y,
    {
        Point { x, y }
    }

    pub fn x(&self) -> (r: Scalar)
        ensures
            r == self.x,
    {
        self.x
    }

    pub fn y(&self) -> (r: Scalar)
        ensures
            r == self.y,
    {
        self.y
    }

    /// The componentwise sum of two points.
    pub fn plus(&self, other: &Point) -> (r: Point)
        requires
            fits(self.x + other.x),
            fits(self.y + other.y),
        ensures
            r.x == self.x + other.x,
            r.y == self.y + other.y,
    {
        Point { x: self.x + other.x, y: self.y + other.y }
    }

    /// The componentwise difference of two points.
    pub fn minus(&self, other: &Point) -> (r: Point)
        requires
            fits(self.x - other.x),
            fits(self.y - other.y),
        ensures
            r.x == self.x - other.x,
            r.y == self.y - other.y,
    {
        Point { x: self.x - other.x, y: self.y - other.y }
    }

    /// The point mirrored through the origin.
    pub fn negated(&self) -> (r: Point)
        requires
            self.x > i64::MIN,
            self.y > i64::MIN,
        ensures
            r.x == -self.x,
            r.y == -self.y,
    {
        Point { x: -self.x, y: -self.y }
    }
}

/// A width and a height.
#[derive(Clone, Copy, Debug, PartialEq, Eq, Hash, Default, Structural)]
pub struct Extent {
    pub width: Scalar,
    pub height: Scalar,
}

impl Extent {
    pub fn zero() -> (r: Extent)
        ensures
            r.width == 0 && r.height == 0,
    {
        Extent { width: 0, height: 0 }
    }

    pub fn new(width: Scalar, height: Scalar) -> (r: Extent)
        ensures
            r.width == width && r.height == height,
    {
        Extent { width, height }
    }

    pub fn width(&self) -> (r: Scalar)
        ensures
            r == self.width,
    {
        self.width
    }

    pub fn height(&self) -> (r: Scalar)
        ensures
            r == self.height,
    {
        self.height
    }
}

/// An axis-aligned rectangle given by its top-left corner and its size.
#[derive(Clone, Copy, Debug, PartialEq, Eq, Hash, Default, Structural)]
pub struct Rectangle {
    pub left: Scalar,
    pub top: Scalar,
    pub width: Scalar,
    pub height: Scalar,
}

impl Rectangle {
    pub fn zero() -> (r: Rectangle)
        ensures
            r.left == 0 && r.top == 0 && r.width == 0 && r.height == 0,
    {
        Rectangle { left: 0, top: 0, width: 0, height: 0 }
    }

    pub fn new(left: Scalar, top: Scalar, width: Scalar, height: Scalar) -> (r: Rectangle)
        ensures
            r.left == left && r.top == top && r.width == width && r.height == height,
    {
        Rectangle { left, top, width, height }
    }

    /// A rectangle of the given size at the origin.
    pub fn extent(width: Scalar, height: Scalar) -> (r: Rectangle)
        ensures
            r.left == 0 && r.top == 0 && r.width == width && r.height == height,
    {
        Rectangle { left: 0, top: 0, width, height }
    }

    pub fn left(&self) -> (r: Scalar)
        ensures
            r == self.left,
    {
        self.left
    }

    pub fn top(&self) -> (r: Scalar)
        ensures
            r == self.top,
    {
        self.top
    }

    pub fn width(&self) -> (r: Scalar)
        ensures
            r == self.width,
    {
        self.width
    }

    pub fn height(&self) -> (r: Scalar)
        ensures
            r == self.height,
    {
        self.height
    }

    pub fn right(&self) -> (r: Scalar)
        requires
            fits(self.left + self.width),
        ensures
            r == self.left + self.width,
    {
        self.left + self.width
    }

    pub fn bottom(&self) -> (r: Scalar)
        requires
            fits(self.top + self.height),
        ensures
            r == self.top + self.height,
    {
        self.top + self.height
    }

    /// Can `inflate(width, height)` be computed without leaving the range of `Scalar`?
    pub open spec fn can_inflate(self, width: int, height: int) -> bool {
        &&& fits(self.left - width)
        &&& fits(self.top - height)
        &&& fits(2 * width)
        &&& fits(2 * height)
        &&& fits(self.width + 2 * width)
        &&& fits(self.height + 2 * height)
    }

    /// The rectangle grown by `width` on the left and on the right, and by
    /// `height` at the top and at the bottom.
    pub fn inflate(&self, width: Scalar, height: Scalar) -> (r: Rectangle)
        requires
            self.can_inflate(width as int, height as int),
        ensures
            r.left == self.left - width,
            r.top == self.top - height,
            r.width == self.width + 2 * width,
            r.height == self.height + 2 * height,
    {
        Rectangle {
            left: self.left - width,
            top: self.top - height,
            width: self.width + 2 * width,
            height: self.height + 2 * height,
        }
    }

    /// The same rectangle moved by `offset`.
    pub fn translate(&self, offset: &Point) -> (r: Rectangle)
        requires
            fits(self.left + offset.x),
            fits(self.top + offset.y),
        ensures
            r.left == self.left + offset.x,
            r.top == self.top + offset.y,
            r.width == self.width,
            r.height == self.height,
    {
        Rectangle {
            left: self.left + offset.x,
            top: self.top + offset.y,
            width: self.width,
            height: self.height,
        }
    }
}

/// The horizontal and vertical radius of a rounded corner.
#[derive(Clone, Copy, Debug, PartialEq, Eq, Hash, Default, Structural)]
pub struct Radius {
    pub width: Scalar,
    pub height: Scalar,
}

impl Radius {
    pub fn new(width: Scalar, height: Scalar) -> (r: Radius)
        ensures
            r.width == width && r.height == height,
    {
        Radius { width, height }
    }

    pub fn width(&self) -> (r: Scalar)
        ensures
            r == self.width,
    {
        self.width
    }

    pub fn height(&self) -> (r: Scalar)
        ensures
            r == self.height,
    {
        self.height
    }
}

/// A rectangle whose four corners are rounded.
#[derive(Clone, Copy, Debug, PartialEq, Eq, Hash, Default, Structural)]
pub struct RoundedRectangle {
    pub rectangle: Rectangle,
    pub top_left_radius: Radius,
    pub top_right_radius: Radius,
    pub bottom_right_radius: Radius,
    pub bottom_left_radius: Radius,
}

impl RoundedRectangle {
    pub fn new(
        rectangle: Rectangle,
        top_left_radius: Radius,
        top_right_radius: Radius,
        bottom_right_radius: Radius,
        bottom_left_radius: Radius,
    ) -> (r: RoundedRectangle)
        ensures
            r.rectangle == rectangle,
            r.top_left_radius == top_left_radius,
            r.top_right_radius == top_right_radius,
            r.bottom_right_radius == bottom_right_radius,
            r.bottom_left_radius == bottom_left_radius,
    {
        RoundedRectangle {
            rectangle,
            top_left_radius,
            top_right_radius,
            bottom_right_radius,
            bottom_left_radius,
        }
    }

    pub fn rectangle(&self) -> (r: &Rectangle)
        ensures
            *r == self.rectangle,
    {
        &self.rectangle
    }

    /// The corner radii, clockwise from the top-left corner.
    pub fn radii(&self) -> (r: [Radius; 4])
        ensures
            r@ == seq![
                self.top_left_radius,
                self.top_right_radius,
                self.bottom_right_radius,
                self.bottom_left_radius,
            ],
    {
        let r = [
            self.top_left_radius,
            self.top_right_radius,
            self.bottom_right_radius,
            self.bottom_left_radius,
        ];
        assert(r@ =~= seq![
            self.top_left_radius,
            self.top_right_radius,
            self.bottom_right_radius,
            self.bottom_left_radius,
        ]);
        r
    }

    /// The same rounded rectangle moved by `offset`.
    pub fn translate(&self, offset: &Point) -> (r: RoundedRectangle)
        requires
            fits(self.rectangle.left + offset.x),
            fits(self.rectangle.top + offset.y),
        ensures
            r.rectangle == self.rectangle.translate_spec(*offset),
            r.top_left_radius == self.top_left_radius,
            r.top_right_radius == self.top_right_radius,
            r.bottom_right_radius == self.bottom_right_radius,
            r.bottom_left_radius == self.bottom_left_radius,
    {
        let mut translated = *self;
        translated.rectangle = self.rectangle.translate(offset);
        translated
    }

    pub fn bounds(&self) -> (r: Rectangle)
        ensures
            r == self.rectangle,
    {
        self.rectangle
    }
}

impl Rectangle {
    /// The rectangle moved by `offset`.
    pub open spec fn translate_spec(self, offset: Point) -> Rectangle {
        Rectangle {
            left: (self.left + offset.x) as Scalar,
            top: (self.top + offset.y) as Scalar,
            width: self.width,
            height: self.height,
        }
    }
}

/// A circle given by its center and its radius.
#[derive(Clone, Copy, Debug, PartialEq, Eq, Hash, Default, Structural)]
pub struct Circle {
    pub center: Point,
    pub radius: Scalar,
}

impl Circle {
    pub fn new(center: Point, radius: Scalar) -> (r: Circle)
        ensures
            r.center == center && r.radius == radius,
    {
        Circle { center, radius }
    }

    pub fn center(&self) -> (r: &Point)
        ensures
            *r == self.center,
    {
        &self.center
    }

    pub fn radius(&self) -> (r: Scalar)
        ensures
            r == self.radius,
    {
        self.radius
    }

    /// Can the bounds of this circle be held in a `Rectangle`?
    pub open spec fn bounds_fit(self) -> bool {
        &&& fits(self.center.x - self.radius)
        &&& fits(self.center.y - self.radius)
        &&& fits(2 * self.radius)
    }

    /// The bounds of a circle: the square around it.
    pub open spec fn bounds_spec(self) -> Rectangle {
        Rectangle {
            left: (self.center.x - self.radius) as Scalar,
            top: (self.center.y - self.radius) as Scalar,
            width: (2 * self.radius) as Scalar,
            height: (2 * self.radius) as Scalar,
        }
    }

    pub fn bounds(&self) -> (r: Rectangle)
        requires
            self.bounds_fit(),
        ensures
            r == self.bounds_spec(),
    {
        Rectangle::new(
            self.center.x - self.radius,
            self.center.y - self.radius,
            self.radius * 2,
            self.radius * 2,
        )
    }

    /// The same circle moved by `offset`.
    pub fn translate(&self, offset: &Point) -> (r: Circle)
        requires
            fits(self.center.x + offset.x),
            fits(self.center.y + offset.y),
        ensures
            r.center.x == self.center.x + offset.x,
            r.center.y == self.center.y + offset.y,
            r.radius == self.radius,
    {
        Circle { center: self.center.plus(offset), radius: self.radius }
    }
}

/// A color packed as alpha, red, green and blue bytes, from the most
/// significant byte down.
#[derive(Clone, Copy, Debug, PartialEq, Eq, Hash, Default, Structural)]
pub struct Color {
    pub argb: u32,
}

impl Color {
    pub fn from_argb(argb: u32) -> (r: Color)
        ensures
            r.argb == argb,
    {
        Color { argb }
    }

    pub fn as_argb(&self) -> (r: u32)
        ensures
            r == self.argb,
    {
        self.argb
    }
}

/// A 3x3 transformation matrix. Its nine entries are held as the bit
/// patterns of the backend's single-precision numbers; the engine never
/// computes with them.
#[derive(Clone, Copy, Debug, Hash)]
pub struct Matrix {
    pub entries: [u32; 9],
}

impl Matrix {
    pub fn from_9(buffer: [u32; 9]) -> (r: Matrix)
        ensures
            r.entries == buffer,
    {
        Matrix { entries: buffer }
    }

    pub fn get_9(&self) -> (r: &[u32; 9])
        ensures
            *r == self.entries,
    {
        &self.entries
    }
}

/// A vector path recorded by the graphics stack. The engine knows it by the
/// handle that the stack gave it and by its bounds.
#[derive(Clone, Copy, Debug, PartialEq, Eq, Hash, Default, Structural)]
pub struct Path {
    pub handle: u64,
    pub bounds: Rectangle,
}

impl Path {
    pub fn new(handle: u64, bounds: Rectangle) -> (r: Path)
        ensures
            r.handle == handle && r.bounds == bounds,
    {
        Path { handle, bounds }
    }

    pub fn handle(&self) -> (r: u64)
        ensures
            r == self.handle,
    {
        self.handle
    }

    pub fn bounds(&self) -> (r: Rectangle)
        ensures
            r == self.bounds,
    {
        self.bounds
    }
}

/// The outline of a shadow or of a clip.
#[derive(Clone, Copy, Debug, PartialEq, Eq, Hash, Structural)]
pub enum Geometry {
    Empty,
    Rectangle(Rectangle),
    RoundedRectangle(RoundedRectangle),
    Circle(Circle),
    Path(Path),
}

impl Default for Geometry {
    fn default() -> (r: Geometry)
        ensures
            r == Geometry::Empty,
    {
        Geometry::Empty
    }
}

impl Geometry {
    /// Can the bounds of this outline be held in a `Rectangle`?
    pub open spec fn bounds_fit(self) -> bool {
        match self {
            Geometry::Circle(c) => c.bounds_fit(),
            _ => true,
        }
    }

    /// The smallest rectangle around the outline; empty for no outline.
    pub open spec fn bounds_spec(self) -> Rectangle {
        match self {
            Geometry::Empty => Rectangle { left: 0, top: 0, width: 0, height: 0 },
            Geometry::Rectangle(r) => r,
            Geometry::RoundedRectangle(r) => r.rectangle,
            Geometry::Circle(c) => c.bounds_spec(),
            Geometry::Path(p) => p.bounds,
        }
    }

    pub fn bounds(&self) -> (r: Rectangle)
        requires
            self.bounds_fit(),
        ensures
            r == self.bounds_spec(),
    {
        match self {
            Geometry::Empty => Rectangle::zero(),
            Geometry::Rectangle(rectangle) => *rectangle,
            Geometry::RoundedRectangle(rounded_rectangle) => rounded_rectangle.bounds(),
            Geometry::Circle(circle) => circle.bounds(),
            Geometry::Path(path) => path.bounds(),
        }
    }
}

} // verus!
