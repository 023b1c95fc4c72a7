//! Drop shadows: their parameters, their memoized structural hash and the
//! rectangle that a rasterized shadow covers.
use crate::geometry::{fits, Color, Geometry, Point, Radius, Rectangle, Scalar};
use std::collections::hash_map::DefaultHasher;
use std::hash::{Hash, Hasher};
use vstd::std_specs::hash::DefaultHasherAdditionalSpecFns;
use vstd::prelude::*;

verus! {

/// The writes that hashing the four parameters of a shadow makes to a hasher.
pub uninterp spec fn parameter_writes_of(
    color: Color,
    radius: Radius,
    offset: Point,
    geometry: Geometry,
) -> Seq<Seq<u8>>;

/// The hash of a shadow's parameters: what std's default hasher, made by
/// `new`, finishes with after their writes.
pub open spec fn structural_hash_of(
    color: Color,
    radius: Radius,
    offset: Point,
    geometry: Geometry,
) -> u64 {
    DefaultHasher::spec_finish(parameter_writes_of(color, radius, offset, geometry))
}

/// Relies on the `Hash` that `derive` gives the parameter types, through
/// std's `Hash` for tuples: the bytes written depend on the values alone.
#[verifier::external_body]
fn write_parameters(
    color: &Color,
    radius: &Radius,
    offset: &Point,
    geometry: &Geometry,
    hasher: &mut DefaultHasher,
)
    ensures
        final(hasher)@ == old(hasher)@ + parameter_writes_of(*color, *radius, *offset, *geometry),
{
    (color, radius, offset, geometry).hash(hasher)
}

/// The structural hash of a shadow's parameters.
fn structural_hash(color: &Color, radius: &Radius, offset: &Point, geometry: &Geometry) -> (r: u64)
    ensures
        r == structural_hash_of(*color, *radius, *offset, *geometry),
{
    let mut hasher = DefaultHasher::new();
    write_parameters(color, radius, offset, geometry, &mut hasher);
    assert(hasher@ =~= parameter_writes_of(*color, *radius, *offset, *geometry));
    hasher.finish()
}

/// A drop shadow of an outline, blurred by `radius` and moved by `offset`.
/// Shadows are compared and hashed by value: they are the keys of the
/// shadow cache.
#[derive(Clone, Copy, Debug, PartialEq, Eq, Hash, Structural)]
pub struct Shadow {
    pub color: Color,
    pub radius: Radius,
    pub offset: Point,
    pub geometry: Geometry,
    pub hash: u64,
}

impl Shadow {
    /// The memoized hash is the structural hash of the parameters.
    pub open spec fn wf(self) -> bool {
        self.hash == structural_hash_of(self.color, self.radius, self.offset, self.geometry)
    }

    pub fn new(color: Color, radius: Radius, offset: Point, geometry: Geometry) -> (r: Shadow)
        ensures
            r.color == color,
            r.radius == radius,
            r.offset == offset,
            r.geometry == geometry,
            r.wf(),
    {
        let hash = structural_hash(&color, &radius, &offset, &geometry);
        Shadow { color, radius, offset, geometry, hash }
    }

    pub fn offset(&self) -> (r: &Point)
        ensures
            *r == self.offset,
    {
        &self.offset
    }

    pub fn radius(&self) -> (r: &Radius)
        ensures
            *r == self.radius,
    {
        &self.radius
    }

    pub fn color(&self) -> (r: &Color)
        ensures
            *r == self.color,
    {
        &self.color
    }

    pub fn geometry(&self) -> (r: &Geometry)
        ensures
            *r == self.geometry,
    {
        &self.geometry
    }

    /// The structural hash of this shadow's parameters.
    pub fn compute_default_hash(&self) -> (r: u64)
        ensures
            r == structural_hash_of(self.color, self.radius, self.offset, self.geometry),
    {
        structural_hash(&self.color, &self.radius, &self.offset, &self.geometry)
    }

    /// The margin by which the blur spreads beyond the outline: three times
    /// the radius.
    pub fn inflation_offset(&self) -> (r: Point)
        requires
            fits(3 * self.radius.width),
            fits(3 * self.radius.height),
        ensures
            r.x == 3 * self.radius.width,
            r.y == 3 * self.radius.height,
    {
        Point::new(self.radius.width * 3, self.radius.height * 3)
    }

    /// The offset of the shadow together with its blur margin.
    pub fn total_offset(&self) -> (r: Point)
        requires
            fits(3 * self.radius.width),
            fits(3 * self.radius.height),
            fits(self.offset.x + 3 * self.radius.width),
            fits(self.offset.y + 3 * self.radius.height),
        ensures
            r.x == self.offset.x + 3 * self.radius.width,
            r.y == self.offset.y + 3 * self.radius.height,
    {
        let inflation = self.inflation_offset();
        self.offset.plus(&inflation)
    }

    /// Can the cull rectangle be computed within the range of `Scalar`?
    pub open spec fn cull_rect_fits(self) -> bool {
        let b = self.geometry.bounds_spec();
        let ix = 3 * self.radius.width;
        let iy = 3 * self.radius.height;
        &&& self.geometry.bounds_fit()
        &&& fits(ix) && fits(iy)
        &&& b.can_inflate(ix, iy)
        &&& fits(b.left - ix + self.offset.x)
        &&& fits(b.top - iy + self.offset.y)
        &&& fits(b.left + self.offset.x)
        &&& fits(b.top + self.offset.y)
    }

    /// The rectangle covered by the rasterized shadow: the outline's bounds
    /// grown by the blur margin on every side, moved by the offset and by the
    /// margin.
    pub open spec fn cull_rect_spec(self) -> Rectangle {
        let b = self.geometry.bounds_spec();
        Rectangle {
            left: (b.left + self.offset.x) as Scalar,
            top: (b.top + self.offset.y) as Scalar,
            width: (b.width + 6 * self.radius.width) as Scalar,
            height: (b.height + 6 * self.radius.height) as Scalar,
        }
    }

    pub fn cull_rect(&self) -> (r: Rectangle)
        requires
            self.cull_rect_fits(),
        ensures
            r == self.cull_rect_spec(),
    {
        let bounds = self.geometry.bounds();
        let inflation = self.inflation_offset();
        bounds.inflate(inflation.x, inflation.y).translate(&self.offset).translate(&inflation)
    }
}

impl Default for Shadow {
    /// A transparent shadow of no outline, without blur or offset.
    fn default() -> (r: Shadow)
        ensures
            r.color == (Color { argb: 0 }),
            r.radius == (Radius { width: 0, height: 0 }),
            r.offset == (Point { x: 0, y: 0 }),
            r.geometry == Geometry::Empty,
            r.wf(),
    {
        Shadow::new(Color::from_argb(0), Radius::new(0, 0), Point::zero(), Geometry::Empty)
    }
}

/// Two well-formed shadows with the same parameters have the same hash, and
/// so are equal as values: the shadow cache sees one key.
pub proof fn lemma_equal_parameters_equal_hash(a: Shadow, b: Shadow)
    requires
        a.wf(),
        b.wf(),
        a.color == b.color,
        a.radius == b.radius,
        a.offset == b.offset,
        a.geometry == b.geometry,
    ensures
        a.hash == b.hash,
        a == b,
{
}

} // verus!
