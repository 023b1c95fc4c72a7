//! The figures of a tiled layer and their boxes in the spatial index.
use crate::geometry::{Extent, Point};
use crate::layers::{Layer, OffsetLayer, PictureLayer};
use crate::spatial::{IndexEntry, INDEX_LIMIT};
use std::sync::Arc;
use vstd::prelude::*;

verus! {

pub type TiledFigureId = u32;

/// The largest magnitude of a figure's offset and extent.
pub const FIGURE_LIMIT: i64 = 0x0800_0000_0000_0000;

/// A figure of a tiled layer: an id, a box given by its offset and extent,
/// and the picture that draws it, once there is one.
#[derive(Clone, Copy, Debug)]
pub struct TiledLayerFigure {
    pub id: TiledFigureId,
    pub offset: Point,
    pub extent: Extent,
    pub picture: Option<PictureLayer>,
}

pub open spec fn min_of(a: int, b: int) -> int {
    if a <= b {
        a
    } else {
        b
    }
}

pub open spec fn max_of(a: int, b: int) -> int {
    if a <= b {
        b
    } else {
        a
    }
}

/// The ids of the figures, in order.
pub open spec fn ids_of(s: Seq<TiledLayerFigure>) -> Seq<u32> {
    s.map_values(|f: TiledLayerFigure| f.id)
}

/// The entry of a figure in the spatial index: its box in doubled
/// coordinates, corners ordered.
pub open spec fn figure_entry(f: TiledLayerFigure) -> IndexEntry {
    let x0 = f.offset.x as int;
    let y0 = f.offset.y as int;
    let x1 = f.offset.x + f.extent.width;
    let y1 = f.offset.y + f.extent.height;
    (
        f.id,
        (2 * min_of(x0, x1)) as i128,
        (2 * min_of(y0, y1)) as i128,
        (2 * max_of(x0, x1)) as i128,
        (2 * max_of(y0, y1)) as i128,
    )
}

impl TiledLayerFigure {
    /// The offset and the extent lie within the figure limit.
    pub open spec fn within_limit(self) -> bool {
        &&& -FIGURE_LIMIT <= self.offset.x <= FIGURE_LIMIT
        &&& -FIGURE_LIMIT <= self.offset.y <= FIGURE_LIMIT
        &&& -FIGURE_LIMIT <= self.extent.width <= FIGURE_LIMIT
        &&& -FIGURE_LIMIT <= self.extent.height <= FIGURE_LIMIT
    }

    /// Tells whether the offset and the extent lie within the figure limit.
    pub fn is_within_limit(&self) -> (r: bool)
        ensures
            r == self.within_limit(),
    {
        -FIGURE_LIMIT <= self.offset.x && self.offset.x <= FIGURE_LIMIT && -FIGURE_LIMIT
            <= self.offset.y && self.offset.y <= FIGURE_LIMIT && -FIGURE_LIMIT
            <= self.extent.width && self.extent.width <= FIGURE_LIMIT && -FIGURE_LIMIT
            <= self.extent.height && self.extent.height <= FIGURE_LIMIT
    }

    pub fn new(id: TiledFigureId, offset: Point, extent: Extent) -> (r: Self)
        ensures
            r.id == id && r.offset == offset && r.extent == extent && r.picture is None,
    {
        TiledLayerFigure { id, offset, extent, picture: None }
    }

    /// The box of the figure in doubled coordinates, as the index holds it.
    pub(crate) fn doubled_box(&self) -> (r: (i128, i128, i128, i128))
        requires
            self.within_limit(),
        ensures
            (self.id, r.0, r.1, r.2, r.3) == figure_entry(*self),
            -INDEX_LIMIT <= r.0 <= r.2 <= INDEX_LIMIT,
            -INDEX_LIMIT <= r.1 <= r.3 <= INDEX_LIMIT,
    {
        let x0 = self.offset.x as i128;
        let y0 = self.offset.y as i128;
        let x1 = x0 + self.extent.width as i128;
        let y1 = y0 + self.extent.height as i128;
        let (left, right) = if x0 <= x1 { (x0, x1) } else { (x1, x0) };
        let (top, bottom) = if y0 <= y1 { (y0, y1) } else { (y1, y0) };
        (2 * left, 2 * top, 2 * right, 2 * bottom)
    }

    pub fn id(&self) -> (r: TiledFigureId)
        ensures
            r == self.id,
    {
        self.id
    }

    pub fn offset(&self) -> (r: &Point)
        ensures
            *r == self.offset,
    {
        &self.offset
    }

    pub fn extent(&self) -> (r: &Extent)
        ensures
            *r == self.extent,
    {
        &self.extent
    }

    pub fn has_picture(&self) -> (r: bool)
        ensures
            r == self.picture is Some,
    {
        self.picture.is_some()
    }

    /// The figure's picture, moved to the figure's offset.
    pub fn picture(&self) -> (r: Option<OffsetLayer>)
        ensures
            self.picture is None ==> r is None,
            self.picture matches Some(p) ==> (r matches Some(o) && o.offset == self.offset
                && o.layers@.len() == 1 && *o.layers@[0] == Layer::Picture(p)),
    {
        match self.picture {
            Some(picture) => Some(OffsetLayer::wrap_with_offset(
                Arc::new(Layer::Picture(picture)),
                self.offset,
            )),
            None => None,
        }
    }

    pub fn get_picture(&self) -> (r: Option<PictureLayer>)
        ensures
            r == self.picture,
    {
        self.picture
    }

    pub fn set_picture(&mut self, picture: PictureLayer)
        ensures
            *final(self) == (TiledLayerFigure { picture: Some(picture), ..*old(self) }),
    {
        self.picture = Some(picture);
    }

    pub fn with_picture(self, picture: PictureLayer) -> (r: Self)
        ensures
            r == (TiledLayerFigure { picture: Some(picture), ..self }),
    {
        let mut figure = self;
        figure.set_picture(picture);
        figure
    }
}

} // verus!
