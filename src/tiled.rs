//! Tiled layers: figures placed on an unbounded plane, found through a
//! spatial index, and drawn through a grid of tiles whose pictures are cached.
use crate::figure::{figure_entry, ids_of, TiledFigureId, TiledLayerFigure};
use crate::geometry::{Extent, Point, Scalar};
use crate::layers::{Layer, OffsetLayer, PictureLayer};
use crate::scale::{lemma_tile_scale_factor_bounds, Ratio, TiledLayerScaleFactor};
use crate::spatial::{
    count_in_box, count_of_id, index_entries, intersects, queried, FigureIndex, IndexEntry,
};
use crate::tile::{
    abs, column_at, index_at, lemma_column_edge, lemma_index_at_monotone, nonzero_indices,
    nonzero_span, tile_grid, touches_tile, visible_tile, ColumnIndex, RowIndex, TiledLayerTile,
    COORDINATE_LIMIT, TILE_EDGE_LIMIT,
};
use std::collections::HashMap;
use std::sync::Arc;
use vstd::multiset::Multiset;
use vstd::prelude::*;

verus! {

broadcast use vstd::std_specs::hash::group_hash_axioms;

/// A tile picture cached under its grid cell.
#[derive(Clone, Copy, Debug)]
pub struct TilePicture {
    pub column: ColumnIndex,
    pub row: RowIndex,
    pub picture: PictureLayer,
}

/// The picture cached for the cell `(column, row)`, if any.
pub open spec fn tile_picture_at(s: Seq<TilePicture>, column: i64, row: i64) -> Option<
    PictureLayer,
> {
    if exists|i: int| 0 <= i < s.len() && s[i].column == column && s[i].row == row {
        let i = choose|i: int| 0 <= i < s.len() && s[i].column == column && s[i].row == row;
        Some(s[i].picture)
    } else {
        None
    }
}

pub open spec fn cells_unique(s: Seq<TilePicture>) -> bool {
    forall|i: int, j: int|
        0 <= i < s.len() && 0 <= j < s.len() && s[i].column == s[j].column && s[i].row
            == s[j].row ==> i == j
}

/// What a tiled layer holds.
pub struct TiledLayerView {
    pub camera_position: Point,
    pub viewport_extent: Extent,
    pub tile_extent: Extent,
    pub scale_factor: TiledLayerScaleFactor,
    pub debug_mode: bool,
    /// The figures by id.
    pub figures: Map<TiledFigureId, TiledLayerFigure>,
    /// The boxes of the spatial index.
    pub index: Multiset<IndexEntry>,
    /// The cached tile pictures.
    pub tile_pictures: Seq<TilePicture>,
}

/// A layer of figures on an unbounded plane, seen through a viewport centred
/// on the camera position, and drawn tile by tile.
pub struct TiledLayer {
    figures: FigureIndex,
    figures_hash: HashMap<TiledFigureId, TiledLayerFigure>,
    camera_position: Point,
    viewport_extent: Extent,
    tile_extent: Extent,
    tile_pictures: Vec<TilePicture>,
    scale_factor: TiledLayerScaleFactor,
    debug_mode: bool,
}

impl View for TiledLayer {
    type V = TiledLayerView;

    closed spec fn view(&self) -> TiledLayerView {
        TiledLayerView {
            camera_position: self.camera_position,
            viewport_extent: self.viewport_extent,
            tile_extent: self.tile_extent,
            scale_factor: self.scale_factor,
            debug_mode: self.debug_mode,
            figures: self.figures_hash@,
            index: index_entries(self.figures),
            tile_pictures: self.tile_pictures@,
        }
    }
}

/// The camera and the extents lie within the coordinate limit; tiles are at
/// least one unit wide and high; the scale is valid.
pub open spec fn geometry_wf(
    camera: Point,
    viewport: Extent,
    tile: Extent,
    scale: TiledLayerScaleFactor,
) -> bool {
    &&& -COORDINATE_LIMIT <= camera.x <= COORDINATE_LIMIT
    &&& -COORDINATE_LIMIT <= camera.y <= COORDINATE_LIMIT
    &&& 0 <= viewport.width <= COORDINATE_LIMIT
    &&& 0 <= viewport.height <= COORDINATE_LIMIT
    &&& 1 <= tile.width <= COORDINATE_LIMIT
    &&& 1 <= tile.height <= COORDINATE_LIMIT
    &&& scale.valid()
}

impl TiledLayerView {
    /// The geometry is within its limits; the two indices agree: every figure
    /// has its box in the spatial index, and every box in the spatial index
    /// belongs to a figure's id; the tile cache has one picture per cell.
    pub open spec fn wf(self) -> bool {
        &&& geometry_wf(
            self.camera_position,
            self.viewport_extent,
            self.tile_extent,
            self.scale_factor,
        )
        &&& forall|id: TiledFigureId| #[trigger]
            self.figures.contains_key(id) ==> self.figures[id].id == id && self.index.contains(
                figure_entry(self.figures[id]),
            )
        &&& forall|e: IndexEntry| #[trigger]
            self.index.contains(e) ==> self.figures.contains_key(e.0)
        &&& cells_unique(self.tile_pictures)
        &&& forall|id: TiledFigureId| #[trigger]
            self.figures.contains_key(id) ==> self.figures[id].within_limit()
    }

    /// The viewport's box in doubled coordinates.
    pub open spec fn viewport_box(self) -> (int, int, int, int) {
        (
            2 * self.camera_position.x - self.viewport_extent.width,
            2 * self.camera_position.y - self.viewport_extent.height,
            2 * self.camera_position.x + self.viewport_extent.width,
            2 * self.camera_position.y + self.viewport_extent.height,
        )
    }

    pub open spec fn tile_factor(self) -> (int, int) {
        self.scale_factor.tile_scale_factor_spec()
    }

    pub open spec fn left_tile_column(self) -> int {
        index_at(self.viewport_box().0, self.tile_extent.width as int, self.tile_factor())
    }

    pub open spec fn top_tile_row(self) -> int {
        index_at(self.viewport_box().1, self.tile_extent.height as int, self.tile_factor())
    }

    pub open spec fn right_tile_column(self) -> int {
        index_at(self.viewport_box().2, self.tile_extent.width as int, self.tile_factor())
    }

    pub open spec fn bottom_tile_row(self) -> int {
        index_at(self.viewport_box().3, self.tile_extent.height as int, self.tile_factor())
    }

    /// The visible cells, row after row.
    pub open spec fn visible_cells(self) -> Seq<(i64, i64)> {
        tile_grid(
            nonzero_span(self.left_tile_column(), self.right_tile_column()),
            nonzero_span(self.top_tile_row(), self.bottom_tile_row()),
        )
    }

    /// The tile of the visible cell `k`.
    pub open spec fn visible_tile_at(self, k: int) -> TiledLayerTile {
        TiledLayerTile {
            column: self.visible_cells()[k].0,
            row: self.visible_cells()[k].1,
            extent: self.tile_extent,
        }
    }

    /// Does a box of the figure with this id share a point with a visible
    /// tile?
    pub open spec fn overlaps_visible_tile(self, id: TiledFigureId) -> bool {
        exists|k: int, e: IndexEntry|
            #![trigger self.index.contains(e), self.visible_tile_at(k)]
            0 <= k < self.visible_cells().len() && self.index.contains(e) && e.0 == id
                && touches_tile(e, self.visible_tile_at(k))
    }

    /// Does a box of the figure with this id share a point with the tile?
    pub open spec fn has_box_on_tile(self, id: TiledFigureId, tile: TiledLayerTile) -> bool {
        exists|e: IndexEntry| #[trigger] self.index.contains(e) && e.0 == id && touches_tile(e, tile)
    }

    /// Is the figure with this id without a picture, and overlapped by the
    /// tile?
    pub open spec fn lacks_picture_on_tile(self, id: TiledFigureId, tile: TiledLayerTile) -> bool {
        &&& self.figures.contains_key(id)
        &&& self.figures[id].picture is None
        &&& exists|e: IndexEntry| #[trigger] self.index.contains(e) && e.0 == id && touches_tile(e, tile)
    }

    /// Is the figure with this id without a picture, and overlapped by a
    /// visible tile?
    pub open spec fn lacks_picture_in_tiles(self, id: TiledFigureId) -> bool {
        &&& self.figures.contains_key(id)
        &&& self.figures[id].picture is None
        &&& self.overlaps_visible_tile(id)
    }

    /// Is the figure with this id seen through the viewport, by some box of
    /// the spatial index?
    pub open spec fn is_visible(self, id: TiledFigureId) -> bool {
        exists|e: IndexEntry|
            #[trigger] self.index.contains(e) && e.0 == id && intersects(
                e,
                self.viewport_box().0 as i128,
                self.viewport_box().1 as i128,
                self.viewport_box().2 as i128,
                self.viewport_box().3 as i128,
            )
    }
}

/// The ids with each run of equal ids cut to one.
fn dedup_ids(v: &Vec<TiledFigureId>) -> (r: Vec<TiledFigureId>)
    ensures
        forall|x: TiledFigureId| #[trigger] r@.contains(x) <==> v@.contains(x),
        forall|i: int| 0 <= i < r@.len() - 1 ==> #[trigger] r@[i] != r@[i + 1],
{
    let mut r: Vec<TiledFigureId> = Vec::new();
    let mut i: usize = 0;
    while i < v.len()
        invariant
            0 <= i <= v@.len(),
            forall|x: TiledFigureId| #[trigger] r@.contains(x) <==> v@.subrange(0, i as int).contains(x),
            forall|k: int| 0 <= k < r@.len() - 1 ==> #[trigger] r@[k] != r@[k + 1],
            r@.len() > 0 ==> i > 0 && r@[r@.len() - 1] == v@[i - 1],
        decreases v@.len() - i,
    {
        let ghost before = r@;
        let x = v[i];
        if r.len() == 0 || r[r.len() - 1] != x {
            r.push(x);
        }
        let ghost taken = v@.subrange(0, i + 1);
        assert(taken =~= v@.subrange(0, i as int).push(x));
        assert forall|y: TiledFigureId| #[trigger] r@.contains(y) <==> taken.contains(y) by {
            if r@.contains(y) {
                let w = choose|w: int| 0 <= w < r@.len() && r@[w] == y;
                if w < before.len() {
                    assert(before[w] == y);
                    assert(before.contains(y));
                    let u = choose|u: int| 0 <= u < i && v@.subrange(0, i as int)[u] == y;
                    assert(taken[u] == y);
                } else {
                    assert(taken[i as int] == y);
                }
            }
            if taken.contains(y) {
                let u = choose|u: int| 0 <= u < taken.len() && taken[u] == y;
                if u < i {
                    assert(v@.subrange(0, i as int)[u] == y);
                    assert(before.contains(y));
                    let w = choose|w: int| 0 <= w < before.len() && before[w] == y;
                    assert(r@[w] == y);
                } else if r@.len() > before.len() {
                    assert(r@[r@.len() - 1] == y);
                } else {
                    assert(r@[r@.len() - 1] == y);
                }
            }
        }
        i = i + 1;
    }
    assert(v@.subrange(0, v@.len() as int) =~= v@);
    r
}

impl TiledLayer {
    pub open spec fn wf(&self) -> bool {
        self@.wf()
    }

    /// A tiled layer without figures, scaled in at one, in debug mode.
    pub fn new(camera_position: Point, viewport_extent: Extent, tile_extent: Extent) -> (r: Self)
        requires
            geometry_wf(
                camera_position,
                viewport_extent,
                tile_extent,
                TiledLayerScaleFactor::ScaleIn(Ratio { numerator: 1, denominator: 1 }),
            ),
        ensures
            r.wf(),
            r@.camera_position == camera_position,
            r@.viewport_extent == viewport_extent,
            r@.tile_extent == tile_extent,
            r@.scale_factor == TiledLayerScaleFactor::ScaleIn(
                Ratio { numerator: 1, denominator: 1 },
            ),
            r@.debug_mode,
            r@.figures == Map::<TiledFigureId, TiledLayerFigure>::empty(),
            r@.index == Multiset::<IndexEntry>::empty(),
            r@.tile_pictures == Seq::<TilePicture>::empty(),
    {
        let r = TiledLayer {
            figures: FigureIndex::new(),
            figures_hash: HashMap::new(),
            camera_position,
            viewport_extent,
            tile_extent,
            tile_pictures: Vec::new(),
            scale_factor: TiledLayerScaleFactor::scale_in(1, 1),
            debug_mode: true,
        };
        assert(r@.tile_pictures =~= Seq::<TilePicture>::empty());
        r
    }

    /// Adds a figure to both indices. A figure with an id that is present
    /// already replaces it in the id index; its earlier box stays in the
    /// spatial index.
    pub fn add_figure(&mut self, figure: TiledLayerFigure)
        requires
            old(self).wf(),
            figure.within_limit(),
        ensures
            final(self).wf(),
            final(self)@ == (TiledLayerView {
                figures: old(self)@.figures.insert(figure.id, figure),
                index: old(self)@.index.insert(figure_entry(figure)),
                ..old(self)@
            }),
    {
        let b = figure.doubled_box();
        self.figures.insert(figure.id, b.0, b.1, b.2, b.3);
        self.figures_hash.insert(figure.id, figure);
        assert forall|e: IndexEntry| #[trigger] self@.index.contains(e) implies self@.figures.contains_key(e.0) by {
            if e != figure_entry(figure) {
                assert(old(self)@.index.contains(e));
            }
        }
    }

    pub fn find_figure_by_id(&self, id: TiledFigureId) -> (r: Option<TiledLayerFigure>)
        ensures
            r == (if self@.figures.contains_key(id) {
                Some(self@.figures[id])
            } else {
                None
            }),
    {
        match self.figures_hash.get(&id) {
            Some(figure) => Some(*figure),
            None => None,
        }
    }

    /// Gives the figure `id` its picture; answers whether there is such a
    /// figure.
    pub fn set_figure_picture(&mut self, id: TiledFigureId, picture: PictureLayer) -> (r: bool)
        requires
            old(self).wf(),
        ensures
            final(self).wf(),
            r == old(self)@.figures.contains_key(id),
            final(self)@ == (if r {
                TiledLayerView {
                    figures: old(self)@.figures.insert(
                        id,
                        TiledLayerFigure { picture: Some(picture), ..old(self)@.figures[id] },
                    ),
                    ..old(self)@
                }
            } else {
                old(self)@
            }),
    {
        match self.find_figure_by_id(id) {
            Some(figure) => {
                let updated = figure.with_picture(picture);
                self.figures_hash.insert(id, updated);
                assert(figure_entry(updated) == figure_entry(figure));
                true
            },
            None => false,
        }
    }

    /// The figures of the given ids, in the same order.
    fn figures_of(&self, ids: &Vec<u32>) -> (r: Vec<TiledLayerFigure>)
        requires
            self.wf(),
            forall|i: int| 0 <= i < ids@.len() ==> self@.figures.contains_key(#[trigger] ids@[i]),
        ensures
            r@.len() == ids@.len(),
            forall|i: int|
                0 <= i < r@.len() ==> #[trigger] r@[i] == self@.figures[ids@[i]] && r@[i].id
                    == ids@[i],
            ids_of(r@) == ids@,
    {
        let mut r: Vec<TiledLayerFigure> = Vec::new();
        let mut i: usize = 0;
        while i < ids.len()
            invariant
                0 <= i <= ids@.len(),
                self.wf(),
                forall|j: int|
                    0 <= j < ids@.len() ==> self@.figures.contains_key(#[trigger] ids@[j]),
                r@.len() == i,
                forall|j: int|
                    0 <= j < i ==> #[trigger] r@[j] == self@.figures[ids@[j]] && r@[j].id
                        == ids@[j],
            decreases ids@.len() - i,
        {
            let id = ids[i];
            assert(self@.figures.contains_key(ids@[i as int]));
            match self.figures_hash.get(&id) {
                Some(figure) => {
                    r.push(*figure);
                },
                None => {
                    assert(false);
                },
            }
            i = i + 1;
        }
        assert(ids_of(r@) =~= ids@);
        r
    }

    /// The figures whose boxes in the index share a point with the doubled
    /// box `(left, top, right, bottom)`.
    fn figures_in_box(&self, left: i128, top: i128, right: i128, bottom: i128) -> (r: Vec<
        TiledLayerFigure,
    >)
        requires
            self.wf(),
            left <= right,
            top <= bottom,
        ensures
            forall|i: int|
                0 <= i < r@.len() ==> self@.figures.contains_key(#[trigger] r@[i].id) && r@[i]
                    == self@.figures[r@[i].id] && exists|e: IndexEntry|
                    #[trigger] self@.index.contains(e) && e.0 == r@[i].id && intersects(
                        e,
                        left,
                        top,
                        right,
                        bottom,
                    ),
            forall|e: IndexEntry|
                #[trigger] queried(e, left, top, right, bottom) && self@.index.contains(e)
                    ==> exists|i: int| 0 <= i < r@.len() && #[trigger] r@[i].id == e.0,
            forall|id: TiledFigureId|
                #[trigger] ids_of(r@).to_multiset().count(id) == count_in_box(
                    self@.index,
                    id,
                    left,
                    top,
                    right,
                    bottom,
                ),
    {
        let ids = self.figures.ids_intersecting(left, top, right, bottom);
        assert forall|i: int| 0 <= i < ids@.len() implies self@.figures.contains_key(
            #[trigger] ids@[i],
        ) by {
            let e = choose|e: IndexEntry|
                #[trigger] index_entries(self.figures).contains(e) && e.0 == ids@[i] && intersects(
                    e,
                    left,
                    top,
                    right,
                    bottom,
                );
            assert(self@.index.contains(e));
        }
        let r = self.figures_of(&ids);
        assert forall|i: int| 0 <= i < r@.len() implies self@.figures.contains_key(
            #[trigger] r@[i].id,
        ) && r@[i] == self@.figures[r@[i].id] && exists|e: IndexEntry|
            #[trigger] self@.index.contains(e) && e.0 == r@[i].id && intersects(
                e,
                left,
                top,
                right,
                bottom,
            ) by {
            assert(r@[i].id == ids@[i]);
        }
        assert forall|e: IndexEntry|
            #[trigger] queried(e, left, top, right, bottom) && self@.index.contains(e) implies exists|
            i: int,
        | 0 <= i < r@.len() && #[trigger] r@[i].id == e.0 by {
            assert(index_entries(self.figures).contains(e));
            assert(ids@.contains(e.0));
            let i = choose|i: int| 0 <= i < ids@.len() && ids@[i] == e.0;
            assert(r@[i].id == e.0);
        }
        r
    }

    /// The figures seen through the viewport, regardless of the scale.
    pub fn visible_figures(&self) -> (r: Vec<TiledLayerFigure>)
        requires
            self.wf(),
        ensures
            forall|i: int|
                0 <= i < r@.len() ==> self@.figures.contains_key(#[trigger] r@[i].id) && r@[i]
                    == self@.figures[r@[i].id] && self@.is_visible(r@[i].id),
            forall|id: TiledFigureId|
                #[trigger] self@.is_visible(id) ==> exists|i: int|
                    0 <= i < r@.len() && #[trigger] r@[i].id == id,
            forall|id: TiledFigureId|
                #[trigger] ids_of(r@).to_multiset().count(id) == count_in_box(
                    self@.index,
                    id,
                    self@.viewport_box().0 as i128,
                    self@.viewport_box().1 as i128,
                    self@.viewport_box().2 as i128,
                    self@.viewport_box().3 as i128,
                ),
    {
        let left = 2 * (self.camera_position.x as i128) - self.viewport_extent.width as i128;
        let top = 2 * (self.camera_position.y as i128) - self.viewport_extent.height as i128;
        let right = 2 * (self.camera_position.x as i128) + self.viewport_extent.width as i128;
        let bottom = 2 * (self.camera_position.y as i128) + self.viewport_extent.height as i128;
        let r = self.figures_in_box(left, top, right, bottom);
        assert forall|id: TiledFigureId| #[trigger] self@.is_visible(id) implies exists|i: int|
            0 <= i < r@.len() && #[trigger] r@[i].id == id by {
            let e = choose|e: IndexEntry|
                #[trigger] self@.index.contains(e) && e.0 == id && intersects(e, left, top, right, bottom);
            assert(queried(e, left, top, right, bottom));
        }
        r
    }

    /// The figures seen through the viewport that have no picture yet.
    pub fn visible_figures_without_picture(&self) -> (r: Vec<TiledLayerFigure>)
        requires
            self.wf(),
        ensures
            forall|i: int|
                0 <= i < r@.len() ==> self@.figures.contains_key(#[trigger] r@[i].id) && r@[i]
                    == self@.figures[r@[i].id] && self@.is_visible(r@[i].id) && r@[i].picture is None,
            forall|id: TiledFigureId|
                #[trigger] self@.is_visible(id) && self@.figures[id].picture is None
                    ==> exists|i: int| 0 <= i < r@.len() && #[trigger] r@[i].id == id,
    {
        let visible = self.visible_figures();
        let mut r: Vec<TiledLayerFigure> = Vec::new();
        let mut i: usize = 0;
        while i < visible.len()
            invariant
                0 <= i <= visible@.len(),
                forall|k: int|
                    0 <= k < r@.len() ==> self@.figures.contains_key(#[trigger] r@[k].id)
                        && r@[k] == self@.figures[r@[k].id] && self@.is_visible(r@[k].id)
                        && r@[k].picture is None,
                forall|k: int|
                    0 <= k < visible@.len() ==> self@.figures.contains_key(
                        #[trigger] visible@[k].id,
                    ) && visible@[k] == self@.figures[visible@[k].id] && self@.is_visible(
                        visible@[k].id,
                    ),
                forall|j: int|
                    0 <= j < i && (#[trigger] visible@[j]).picture is None ==> exists|k: int|
                        0 <= k < r@.len() && #[trigger] r@[k].id == visible@[j].id,
            decreases visible@.len() - i,
        {
            let figure = visible[i];
            let ghost before = r@;
            if !figure.has_picture() {
                r.push(figure);
            }
            assert forall|j: int|
                0 <= j < i + 1 && (#[trigger] visible@[j]).picture is None implies exists|k: int|
                0 <= k < r@.len() && #[trigger] r@[k].id == visible@[j].id by {
                if j < i {
                    let k = choose|k: int| 0 <= k < before.len() && #[trigger] before[k].id == visible@[j].id;
                    assert(r@[k] == before[k]);
                } else {
                    assert(r@[r@.len() - 1].id == visible@[j].id);
                }
            }
            i = i + 1;
        }
        proof {
            assert forall|id: TiledFigureId|
                #[trigger] self@.is_visible(id) && self@.figures[id].picture is None implies exists|
                k: int,
            | 0 <= k < r@.len() && #[trigger] r@[k].id == id by {
                let j = choose|j: int| 0 <= j < visible@.len() && #[trigger] visible@[j].id == id;
                assert(visible@[j].picture is None);
            }
        }
        r
    }

    /// The ids of the figures seen through the viewport that have no picture
    /// yet.
    pub fn visible_figures_ids_without_picture(&self) -> (r: Vec<TiledFigureId>)
        requires
            self.wf(),
        ensures
            forall|i: int|
                0 <= i < r@.len() ==> self@.figures.contains_key(#[trigger] r@[i])
                    && self@.is_visible(r@[i]) && self@.figures[r@[i]].picture is None,
            forall|id: TiledFigureId|
                #[trigger] self@.is_visible(id) && self@.figures[id].picture is None
                    ==> r@.contains(id),
    {
        let figures = self.visible_figures_without_picture();
        let mut r: Vec<TiledFigureId> = Vec::new();
        let mut i: usize = 0;
        while i < figures.len()
            invariant
                0 <= i <= figures@.len(),
                r@.len() == i,
                forall|k: int| 0 <= k < i ==> #[trigger] r@[k] == figures@[k].id,
            decreases figures@.len() - i,
        {
            r.push(figures[i].id);
            i = i + 1;
        }
        proof {
            assert forall|id: TiledFigureId|
                #[trigger] self@.is_visible(id) && self@.figures[id].picture is None implies r@.contains(
                id,
            ) by {
                let k = choose|k: int| 0 <= k < figures@.len() && #[trigger] figures@[k].id == id;
                assert(r@[k] == id);
            }
        }
        r
    }

    /// Adds to `ids` the id of every figure without a picture that the tile
    /// overlaps.
    fn push_ids_without_picture(&self, tile: &TiledLayerTile, ids: &mut Vec<TiledFigureId>)
        requires
            self.wf(),
            tile.fits(),
        ensures
            forall|i: int|
                0 <= i < final(ids)@.len() ==> old(ids)@.contains(#[trigger] final(ids)@[i])
                    || self@.lacks_picture_on_tile(final(ids)@[i], *tile),
            forall|x: TiledFigureId| old(ids)@.contains(x) ==> #[trigger] final(ids)@.contains(x),
            forall|e: IndexEntry|
                #[trigger] self@.index.contains(e) && touches_tile(e, *tile)
                    && self@.figures[e.0].picture is None ==> final(ids)@.contains(e.0),
    {
        let ghost start = ids@;
        let figures = self.figures_overlapping_tile(tile);
        let mut j: usize = 0;
        while j < figures.len()
            invariant
                0 <= j <= figures@.len(),
                forall|i: int|
                    0 <= i < figures@.len() ==> self@.figures.contains_key(
                        #[trigger] figures@[i].id,
                    ) && figures@[i] == self@.figures[figures@[i].id] && exists|e: IndexEntry|
                        #[trigger] self@.index.contains(e) && e.0 == figures@[i].id
                            && touches_tile(e, *tile),
                forall|i: int|
                    0 <= i < ids@.len() ==> start.contains(#[trigger] ids@[i])
                        || self@.lacks_picture_on_tile(ids@[i], *tile),
                forall|x: TiledFigureId| start.contains(x) ==> #[trigger] ids@.contains(x),
                forall|i: int|
                    0 <= i < j && (#[trigger] figures@[i]).picture is None ==> ids@.contains(
                        figures@[i].id,
                    ),
            decreases figures@.len() - j,
        {
            let figure = figures[j];
            let ghost before = ids@;
            if !figure.has_picture() {
                ids.push(figure.id);
                assert(ids@[ids@.len() - 1] == figure.id);
            }
            assert forall|x: TiledFigureId| before.contains(x) implies #[trigger] ids@.contains(x) by {
                let w = choose|w: int| 0 <= w < before.len() && before[w] == x;
                assert(ids@[w] == x);
            }
            assert forall|i: int|
                0 <= i < j + 1 && (#[trigger] figures@[i]).picture is None implies ids@.contains(
                figures@[i].id,
            ) by {
                if i < j {
                    assert(before.contains(figures@[i].id));
                }
            }
            j = j + 1;
        }
        assert forall|e: IndexEntry|
            #[trigger] self@.index.contains(e) && touches_tile(e, *tile)
                && self@.figures[e.0].picture is None implies ids@.contains(e.0) by {
            assert(queried(
                e,
                tile.doubled_box_spec().0 as i128,
                tile.doubled_box_spec().1 as i128,
                tile.doubled_box_spec().2 as i128,
                tile.doubled_box_spec().3 as i128,
            ));
            let i = choose|i: int| 0 <= i < figures@.len() && #[trigger] figures@[i].id == e.0;
            assert(figures@[i].picture is None);
        }
    }

    /// The ids of the figures without a picture that some visible tile
    /// overlaps, tile after tile; an id does not follow itself.
    pub fn visible_figures_ids_within_tiles_without_picture(&self) -> (r: Vec<TiledFigureId>)
        requires
            self.wf(),
        ensures
            forall|i: int| 0 <= i < r@.len() ==> self@.lacks_picture_in_tiles(#[trigger] r@[i]),
            forall|id: TiledFigureId| #[trigger] self@.lacks_picture_in_tiles(id) ==> r@.contains(id),
            forall|i: int| 0 <= i < r@.len() - 1 ==> #[trigger] r@[i] != r@[i + 1],
    {
        let tiles = self.visible_tiles();
        let mut ids: Vec<TiledFigureId> = Vec::new();
        let mut k: usize = 0;
        while k < tiles.len()
            invariant
                0 <= k <= tiles@.len(),
                self.wf(),
                tiles@.len() == self@.visible_cells().len(),
                forall|t: int|
                    0 <= t < tiles@.len() ==> visible_tile(
                        #[trigger] tiles@[t],
                        self@.visible_cells()[t],
                        self@.tile_extent,
                    ),
                forall|i: int| 0 <= i < ids@.len() ==> self@.lacks_picture_in_tiles(#[trigger] ids@[i]),
                forall|t: int, e: IndexEntry|
                    #![trigger self@.index.contains(e), self@.visible_tile_at(t)]
                    0 <= t < k && self@.index.contains(e) && touches_tile(e, self@.visible_tile_at(t))
                        && self@.figures[e.0].picture is None ==> ids@.contains(e.0),
            decreases tiles@.len() - k,
        {
            let tile = tiles[k];
            assert(tile == self@.visible_tile_at(k as int));
            let ghost start = ids@;
            self.push_ids_without_picture(&tile, &mut ids);
            assert forall|i: int| 0 <= i < ids@.len() implies self@.lacks_picture_in_tiles(
                #[trigger] ids@[i],
            ) by {
                if !start.contains(ids@[i]) {
                    let e = choose|e: IndexEntry|
                        #[trigger] self@.index.contains(e) && e.0 == ids@[i] && touches_tile(e, tile);
                    assert(self@.visible_tile_at(k as int) == tile);
                } else {
                    let w = choose|w: int| 0 <= w < start.len() && start[w] == ids@[i];
                    assert(self@.lacks_picture_in_tiles(start[w]));
                }
            }
            assert forall|t: int, e: IndexEntry|
                #![trigger self@.index.contains(e), self@.visible_tile_at(t)]
                0 <= t < k + 1 && self@.index.contains(e) && touches_tile(e, self@.visible_tile_at(t))
                    && self@.figures[e.0].picture is None implies ids@.contains(e.0) by {
                if t < k {
                    assert(start.contains(e.0));
                }
            }
            k = k + 1;
        }
        let r = dedup_ids(&ids);
        assert forall|id: TiledFigureId| #[trigger] self@.lacks_picture_in_tiles(id) implies r@.contains(id) by {
            let (t, e) = choose|t: int, e: IndexEntry|
                #![trigger self@.index.contains(e), self@.visible_tile_at(t)]
                0 <= t < self@.visible_cells().len() && self@.index.contains(e) && e.0 == id
                    && touches_tile(e, self@.visible_tile_at(t));
            assert(ids@.contains(e.0));
        }
        assert forall|i: int| 0 <= i < r@.len() implies self@.lacks_picture_in_tiles(#[trigger] r@[i]) by {
            assert(r@.contains(r@[i]));
            let w = choose|w: int| 0 <= w < ids@.len() && ids@[w] == r@[i];
        }
        r
    }

    /// The pictures of the figures that the tile overlaps, each moved to
    /// where its figure lies relative to the tile's origin.
    fn figure_pictures_on_tile(&self, tile: &TiledLayerTile) -> (r: Vec<(TiledFigureId, OffsetLayer)>)
        requires
            self.wf(),
            tile.fits(),
        ensures
            forall|i: int|
                0 <= i < r@.len() ==> self@.figures.contains_key(#[trigger] r@[i].0)
                    && self@.has_box_on_tile(r@[i].0, *tile) && draws_figure_on_tile(
                    r@[i].1,
                    self@.figures[r@[i].0],
                    *tile,
                ),
            forall|e: IndexEntry|
                #[trigger] queried(
                    e,
                    tile.doubled_box_spec().0 as i128,
                    tile.doubled_box_spec().1 as i128,
                    tile.doubled_box_spec().2 as i128,
                    tile.doubled_box_spec().3 as i128,
                ) && self@.index.contains(e) && self@.figures[e.0].picture is Some ==> exists|i: int|
                    0 <= i < r@.len() && #[trigger] r@[i].0 == e.0,
    {
        let mut figures: Vec<(TiledFigureId, OffsetLayer)> = Vec::new();
        let overlapping = self.figures_overlapping_tile(tile);
        let left = tile.left();
        let top = tile.top();
        let mut i: usize = 0;
        while i < overlapping.len()
            invariant
                0 <= i <= overlapping@.len(),
                self.wf(),
                tile.fits(),
                left == tile.left_spec(),
                top == tile.top_spec(),
                forall|j: int|
                    0 <= j < overlapping@.len() ==> self@.figures.contains_key(
                        #[trigger] overlapping@[j].id,
                    ) && overlapping@[j] == self@.figures[overlapping@[j].id]
                        && self@.has_box_on_tile(overlapping@[j].id, *tile),
                forall|k: int|
                    0 <= k < figures@.len() ==> self@.figures.contains_key(
                        #[trigger] figures@[k].0,
                    ) && self@.has_box_on_tile(figures@[k].0, *tile) && draws_figure_on_tile(
                        figures@[k].1,
                        self@.figures[figures@[k].0],
                        *tile,
                    ),
                forall|j: int|
                    0 <= j < i && (#[trigger] overlapping@[j]).picture is Some ==> exists|k: int|
                        0 <= k < figures@.len() && #[trigger] figures@[k].0 == overlapping@[j].id,
            decreases overlapping@.len() - i,
        {
            let figure = overlapping[i];
            let ghost before = figures@;
            assert(self@.figures[figure.id].within_limit());
            match figure.picture {
                Some(picture) => {
                    let offset = Point::new(figure.offset.x - left, figure.offset.y - top);
                    let moved = OffsetLayer::wrap_with_offset(Arc::new(Layer::Picture(picture)), offset);
                    figures.push((figure.id, moved));
                },
                None => {},
            }
            assert forall|j: int|
                0 <= j < i + 1 && (#[trigger] overlapping@[j]).picture is Some implies exists|k: int|
                0 <= k < figures@.len() && #[trigger] figures@[k].0 == overlapping@[j].id by {
                if j < i {
                    let k = choose|k: int| 0 <= k < before.len() && #[trigger] before[k].0 == overlapping@[j].id;
                    assert(figures@[k] == before[k]);
                } else {
                    assert(figures@[figures@.len() - 1].0 == overlapping@[j].id);
                }
            }
            i = i + 1;
        }
        assert forall|e: IndexEntry|
            #[trigger] queried(
                e,
                tile.doubled_box_spec().0 as i128,
                tile.doubled_box_spec().1 as i128,
                tile.doubled_box_spec().2 as i128,
                tile.doubled_box_spec().3 as i128,
            ) && self@.index.contains(e) && self@.figures[e.0].picture is Some implies exists|i: int|
            0 <= i < figures@.len() && #[trigger] figures@[i].0 == e.0 by {
            let j = choose|j: int| 0 <= j < overlapping@.len() && #[trigger] overlapping@[j].id == e.0;
            assert(overlapping@[j].picture is Some);
        }
        figures
    }

    /// What composing the tile takes: its cached picture, or else the
    /// pictures of the figures it overlaps, each moved to where its figure
    /// lies relative to the tile's origin, from which to record one.
    pub fn tile_work(&self, tile: &TiledLayerTile) -> (r: TileWork)
        requires
            self.wf(),
            tile.fits(),
        ensures
            r.tile == *tile,
            r.cached == tile_picture_at(self@.tile_pictures, tile.column, tile.row),
            r.cached is Some ==> r.figures@.len() == 0,
            forall|i: int|
                0 <= i < r.figures@.len() ==> self@.figures.contains_key(#[trigger] r.figures@[i].0)
                    && self@.has_box_on_tile(r.figures@[i].0, *tile) && draws_figure_on_tile(
                    r.figures@[i].1,
                    self@.figures[r.figures@[i].0],
                    *tile,
                ),
            r.cached is None ==> forall|e: IndexEntry|
                #[trigger] queried(
                    e,
                    tile.doubled_box_spec().0 as i128,
                    tile.doubled_box_spec().1 as i128,
                    tile.doubled_box_spec().2 as i128,
                    tile.doubled_box_spec().3 as i128,
                ) && self@.index.contains(e) && self@.figures[e.0].picture is Some ==> exists|i: int|
                    0 <= i < r.figures@.len() && #[trigger] r.figures@[i].0 == e.0,
    {
        let cached = self.get_tile_picture(tile);
        if cached.is_none() {
            let figures = self.figure_pictures_on_tile(tile);
            let r = TileWork { tile: *tile, cached, figures };
            assert(r.figures@ == figures@);
            assert forall|e: IndexEntry|
                #[trigger] queried(
                    e,
                    tile.doubled_box_spec().0 as i128,
                    tile.doubled_box_spec().1 as i128,
                    tile.doubled_box_spec().2 as i128,
                    tile.doubled_box_spec().3 as i128,
                ) && self@.index.contains(e) && self@.figures[e.0].picture is Some implies exists|i: int|
                0 <= i < r.figures@.len() && #[trigger] r.figures@[i].0 == e.0 by {
                let i = choose|i: int| 0 <= i < figures@.len() && #[trigger] figures@[i].0 == e.0;
                assert(r.figures@[i].0 == e.0);
            }
            r
        } else {
            TileWork { tile: *tile, cached, figures: Vec::new() }
        }
    }

    /// The figures whose boxes share a point with the tile.
    pub fn figures_overlapping_tile(&self, tile: &TiledLayerTile) -> (r: Vec<TiledLayerFigure>)
        requires
            self.wf(),
            tile.fits(),
        ensures
            forall|i: int|
                0 <= i < r@.len() ==> self@.figures.contains_key(#[trigger] r@[i].id) && r@[i]
                    == self@.figures[r@[i].id] && exists|e: IndexEntry|
                    #[trigger] self@.index.contains(e) && e.0 == r@[i].id && intersects(
                        e,
                        tile.doubled_box_spec().0 as i128,
                        tile.doubled_box_spec().1 as i128,
                        tile.doubled_box_spec().2 as i128,
                        tile.doubled_box_spec().3 as i128,
                    ),
            forall|e: IndexEntry|
                #[trigger] queried(
                    e,
                    tile.doubled_box_spec().0 as i128,
                    tile.doubled_box_spec().1 as i128,
                    tile.doubled_box_spec().2 as i128,
                    tile.doubled_box_spec().3 as i128,
                ) && self@.index.contains(e) ==> exists|i: int|
                    0 <= i < r@.len() && #[trigger] r@[i].id == e.0,
            forall|id: TiledFigureId|
                #[trigger] ids_of(r@).to_multiset().count(id) == count_in_box(
                    self@.index,
                    id,
                    tile.doubled_box_spec().0 as i128,
                    tile.doubled_box_spec().1 as i128,
                    tile.doubled_box_spec().2 as i128,
                    tile.doubled_box_spec().3 as i128,
                ),
    {
        let b = tile.doubled_box();
        self.figures_in_box(b.0, b.1, b.2, b.3)
    }

    /// Half of `v`, rounded down.
    fn floor_half(v: i64) -> (r: i64)
        ensures
            2 * r <= v < 2 * r + 2,
    {
        if v >= 0 {
            v / 2
        } else {
            -((-(v as i128) + 1) / 2) as i64
        }
    }

    /// A copy of the layer with another camera position and scale factor.
    fn rebuilt(&self, camera_position: Point, scale_factor: TiledLayerScaleFactor) -> (r: TiledLayer)
        requires
            self.wf(),
            geometry_wf(camera_position, self@.viewport_extent, self@.tile_extent, scale_factor),
        ensures
            r.wf(),
            r@ == (TiledLayerView { camera_position, scale_factor, ..self@ }),
    {
        let tile_pictures = self.tile_pictures.clone();
        assert(tile_pictures@ =~= self.tile_pictures@);
        TiledLayer {
            figures: self.figures.duplicate(),
            figures_hash: self.figures_hash.clone(),
            camera_position,
            viewport_extent: self.viewport_extent,
            tile_extent: self.tile_extent,
            tile_pictures,
            scale_factor,
            debug_mode: self.debug_mode,
        }
    }

    /// The same layer seen from another camera position.
    pub fn with_camera_position(&self, camera_position: Point) -> (r: TiledLayer)
        requires
            self.wf(),
            -COORDINATE_LIMIT <= camera_position.x <= COORDINATE_LIMIT,
            -COORDINATE_LIMIT <= camera_position.y <= COORDINATE_LIMIT,
        ensures
            r.wf(),
            r@ == (TiledLayerView { camera_position, ..self@ }),
    {
        self.rebuilt(camera_position, self.scale_factor)
    }

    /// The same layer at another scale.
    pub fn with_scale_factor(&self, scale_factor: TiledLayerScaleFactor) -> (r: TiledLayer)
        requires
            self.wf(),
            scale_factor.valid(),
        ensures
            r.wf(),
            r@ == (TiledLayerView { scale_factor, ..self@ }),
    {
        self.rebuilt(self.camera_position, scale_factor)
    }

    pub fn camera_position(&self) -> (r: &Point)
        ensures
            *r == self@.camera_position,
    {
        &self.camera_position
    }

    pub fn viewport_extent(&self) -> (r: &Extent)
        ensures
            *r == self@.viewport_extent,
    {
        &self.viewport_extent
    }

    pub fn tile_extent(&self) -> (r: &Extent)
        ensures
            *r == self@.tile_extent,
    {
        &self.tile_extent
    }

    pub fn tile_width(&self) -> (r: Scalar)
        ensures
            r == self@.tile_extent.width,
    {
        self.tile_extent.width
    }

    pub fn tile_height(&self) -> (r: Scalar)
        ensures
            r == self@.tile_extent.height,
    {
        self.tile_extent.height
    }

    pub fn scale_factor(&self) -> (r: &TiledLayerScaleFactor)
        ensures
            *r == self@.scale_factor,
    {
        &self.scale_factor
    }

    pub fn is_debug_mode(&self) -> (r: bool)
        ensures
            r == self@.debug_mode,
    {
        self.debug_mode
    }

    pub fn viewport_width(&self) -> (r: Scalar)
        ensures
            r == self@.viewport_extent.width,
    {
        self.viewport_extent.width
    }

    pub fn viewport_height(&self) -> (r: Scalar)
        ensures
            r == self@.viewport_extent.height,
    {
        self.viewport_extent.height
    }

    /// The viewport's left edge, rounded down to a whole unit.
    pub fn viewport_left(&self) -> (r: Scalar)
        requires
            self.wf(),
        ensures
            2 * r <= 2 * self@.camera_position.x - self@.viewport_extent.width < 2 * r + 2,
    {
        TiledLayer::floor_half(2 * self.camera_position.x - self.viewport_extent.width)
    }

    /// The viewport's top edge, rounded down to a whole unit.
    pub fn viewport_top(&self) -> (r: Scalar)
        requires
            self.wf(),
        ensures
            2 * r <= 2 * self@.camera_position.y - self@.viewport_extent.height < 2 * r + 2,
    {
        TiledLayer::floor_half(2 * self.camera_position.y - self.viewport_extent.height)
    }

    /// The viewport's right edge, rounded up to a whole unit.
    pub fn viewport_right(&self) -> (r: Scalar)
        requires
            self.wf(),
        ensures
            2 * r - 2 < 2 * self@.camera_position.x + self@.viewport_extent.width <= 2 * r,
    {
        TiledLayer::floor_half(2 * self.camera_position.x + self.viewport_extent.width + 1)
    }

    /// The viewport's bottom edge, rounded up to a whole unit.
    pub fn viewport_bottom(&self) -> (r: Scalar)
        requires
            self.wf(),
        ensures
            2 * r - 2 < 2 * self@.camera_position.y + self@.viewport_extent.height <= 2 * r,
    {
        TiledLayer::floor_half(2 * self.camera_position.y + self.viewport_extent.height + 1)
    }

    /// Twice the translation that puts the camera position at the centre of
    /// the viewport: the viewport extent less twice the camera position.
    pub fn canvas_offset_doubled(&self) -> (r: Point)
        requires
            self.wf(),
        ensures
            r.x == self@.viewport_extent.width - 2 * self@.camera_position.x,
            r.y == self@.viewport_extent.height - 2 * self@.camera_position.y,
    {
        Point::new(
            self.viewport_extent.width - 2 * self.camera_position.x,
            self.viewport_extent.height - 2 * self.camera_position.y,
        )
    }

    /// The residual scale applied to tiles; see `TiledLayerScaleFactor`.
    pub fn tile_scale_factor(&self) -> (r: Ratio)
        requires
            self.wf(),
        ensures
            r.numerator == self@.tile_factor().0,
            r.denominator == self@.tile_factor().1,
    {
        self.scale_factor.tile_scale_factor()
    }

    /// Every figure, once for each box of it in the spatial index.
    pub fn figures(&self) -> (r: Vec<TiledLayerFigure>)
        requires
            self.wf(),
        ensures
            r@.len() == self@.index.len(),
            forall|i: int|
                0 <= i < r@.len() ==> self@.figures.contains_key(#[trigger] r@[i].id) && r@[i]
                    == self@.figures[r@[i].id],
            forall|id: TiledFigureId|
                #[trigger] self@.figures.contains_key(id) ==> exists|i: int|
                    0 <= i < r@.len() && #[trigger] r@[i].id == id,
            forall|id: TiledFigureId|
                #[trigger] ids_of(r@).to_multiset().count(id) == count_of_id(self@.index, id),
    {
        let ids = self.figures.ids();
        assert forall|i: int| 0 <= i < ids@.len() implies self@.figures.contains_key(
            #[trigger] ids@[i],
        ) by {
            let e = choose|e: IndexEntry|
                #[trigger] index_entries(self.figures).contains(e) && e.0 == ids@[i];
            assert(self@.index.contains(e));
        }
        let r = self.figures_of(&ids);
        assert forall|id: TiledFigureId| #[trigger] self@.figures.contains_key(id) implies exists|i: int|
            0 <= i < r@.len() && #[trigger] r@[i].id == id by {
            let e = figure_entry(self@.figures[id]);
            assert(self@.index.contains(e));
            assert(ids@.contains(e.0));
            let i = choose|i: int| 0 <= i < ids@.len() && ids@[i] == e.0;
            assert(r@[i].id == id);
        }
        r
    }

    /// Every figure; the same as `figures`.
    pub fn clone_figures(&self) -> (r: Vec<TiledLayerFigure>)
        requires
            self.wf(),
        ensures
            r@.len() == self@.index.len(),
            forall|i: int|
                0 <= i < r@.len() ==> self@.figures.contains_key(#[trigger] r@[i].id) && r@[i]
                    == self@.figures[r@[i].id],
            forall|id: TiledFigureId|
                #[trigger] self@.figures.contains_key(id) ==> exists|i: int|
                    0 <= i < r@.len() && #[trigger] r@[i].id == id,
            forall|id: TiledFigureId|
                #[trigger] ids_of(r@).to_multiset().count(id) == count_of_id(self@.index, id),
    {
        self.figures()
    }

    fn find_cell(&self, column: ColumnIndex, row: RowIndex) -> (r: Option<usize>)
        ensures
            match r {
                Some(i) => i < self@.tile_pictures.len() && self@.tile_pictures[i as int].column
                    == column && self@.tile_pictures[i as int].row == row,
                None => forall|i: int|
                    0 <= i < self@.tile_pictures.len() ==> !(
                    #[trigger] self@.tile_pictures[i].column == column
                        && self@.tile_pictures[i].row == row),
            },
    {
        let mut i: usize = 0;
        while i < self.tile_pictures.len()
            invariant
                0 <= i <= self.tile_pictures@.len(),
                forall|j: int|
                    0 <= j < i ==> !(#[trigger] self.tile_pictures@[j].column == column
                        && self.tile_pictures@[j].row == row),
            decreases self.tile_pictures@.len() - i,
        {
            if self.tile_pictures[i].column == column && self.tile_pictures[i].row == row {
                return Some(i);
            }
            i = i + 1;
        }
        None
    }

    /// The picture cached for the tile's cell.
    pub fn get_tile_picture(&self, tile: &TiledLayerTile) -> (r: Option<PictureLayer>)
        requires
            self.wf(),
        ensures
            r == tile_picture_at(self@.tile_pictures, tile.column, tile.row),
    {
        match self.find_cell(tile.column, tile.row) {
            Some(i) => Some(self.tile_pictures[i].picture),
            None => None,
        }
    }

    /// Caches `picture` for the tile's cell, replacing an earlier one.
    pub fn cache_tile_picture(&mut self, tile: &TiledLayerTile, picture: PictureLayer)
        requires
            old(self).wf(),
        ensures
            final(self).wf(),
            final(self)@ == (TiledLayerView {
                tile_pictures: final(self)@.tile_pictures,
                ..old(self)@
            }),
            tile_picture_at(final(self)@.tile_pictures, tile.column, tile.row) == Some(picture),
            forall|column: i64, row: i64|
                !(column == tile.column && row == tile.row) ==> #[trigger] tile_picture_at(
                    final(self)@.tile_pictures,
                    column,
                    row,
                ) == tile_picture_at(old(self)@.tile_pictures, column, row),
    {
        let ghost s0 = self.tile_pictures@;
        let entry = TilePicture { column: tile.column, row: tile.row, picture };
        match self.find_cell(tile.column, tile.row) {
            Some(i) => {
                self.tile_pictures.set(i, entry);
                assert(self.tile_pictures@[i as int] == entry);
            },
            None => {
                self.tile_pictures.push(entry);
                assert(self.tile_pictures@[self.tile_pictures@.len() - 1] == entry);
            },
        }
        let ghost s1 = self.tile_pictures@;
        assert(cells_unique(s1));
        assert(exists|i: int| 0 <= i < s1.len() && s1[i] == entry);
        assert forall|column: i64, row: i64|
            !(column == tile.column && row == tile.row) implies #[trigger] tile_picture_at(
            s1,
            column,
            row,
        ) == tile_picture_at(s0, column, row) by {
            if exists|i: int| 0 <= i < s0.len() && s0[i].column == column && s0[i].row == row {
                let i = choose|i: int| 0 <= i < s0.len() && s0[i].column == column && s0[i].row == row;
                assert(s1[i] == s0[i]);
            }
            if exists|i: int| 0 <= i < s1.len() && s1[i].column == column && s1[i].row == row {
                let i = choose|i: int| 0 <= i < s1.len() && s1[i].column == column && s1[i].row == row;
                assert(i < s0.len() && s1[i] == s0[i]);
            }
        }
    }

    /// The viewport's box in doubled coordinates.
    fn viewport_doubled(&self) -> (r: (i64, i64, i64, i64))
        requires
            self.wf(),
        ensures
            (r.0 as int, r.1 as int, r.2 as int, r.3 as int) == self@.viewport_box(),
            -3 * COORDINATE_LIMIT <= r.0 <= r.2 <= 3 * COORDINATE_LIMIT,
            -3 * COORDINATE_LIMIT <= r.1 <= r.3 <= 3 * COORDINATE_LIMIT,
    {
        let x2 = 2 * self.camera_position.x;
        let y2 = 2 * self.camera_position.y;
        (
            x2 - self.viewport_extent.width,
            y2 - self.viewport_extent.height,
            x2 + self.viewport_extent.width,
            y2 + self.viewport_extent.height,
        )
    }

    /// The column of the tile at the viewport's left edge.
    pub fn left_tile_column(&self) -> (r: ColumnIndex)
        requires
            self.wf(),
        ensures
            r == self@.left_tile_column(),
    {
        let b = self.viewport_doubled();
        column_at(b.0, self.tile_extent.width, self.scale_factor.tile_scale_factor())
    }

    /// The column of the tile at the viewport's right edge.
    pub fn right_tile_column(&self) -> (r: ColumnIndex)
        requires
            self.wf(),
        ensures
            r == self@.right_tile_column(),
    {
        let b = self.viewport_doubled();
        column_at(b.2, self.tile_extent.width, self.scale_factor.tile_scale_factor())
    }

    /// The row of the tile at the viewport's top edge.
    pub fn top_tile_row(&self) -> (r: RowIndex)
        requires
            self.wf(),
        ensures
            r == self@.top_tile_row(),
    {
        let b = self.viewport_doubled();
        column_at(b.1, self.tile_extent.height, self.scale_factor.tile_scale_factor())
    }

    /// The row of the tile at the viewport's bottom edge.
    pub fn bottom_tile_row(&self) -> (r: RowIndex)
        requires
            self.wf(),
        ensures
            r == self@.bottom_tile_row(),
    {
        let b = self.viewport_doubled();
        column_at(b.3, self.tile_extent.height, self.scale_factor.tile_scale_factor())
    }

    /// The non-zero columns (or rows) from the one at `start` to the one at
    /// `end`, each with its tile edge within the edge limit.
    fn span_between(start: i64, end: i64, tile: i64, factor: Ratio) -> (r: Vec<i64>)
        requires
            -3 * COORDINATE_LIMIT <= start <= end <= 3 * COORDINATE_LIMIT,
            1 <= tile <= COORDINATE_LIMIT,
            factor.numerator >= 1,
            factor.denominator >= 1,
            factor.denominator <= 2 * factor.numerator,
        ensures
            r@ == nonzero_span(
                index_at(start as int, tile as int, (factor.numerator as int, factor.denominator as int)),
                index_at(end as int, tile as int, (factor.numerator as int, factor.denominator as int)),
            ),
            forall|i: int|
                0 <= i < r@.len() ==> #[trigger] r@[i] != 0 && -TILE_EDGE_LIMIT <= tile * (if r@[i] < 0 {
                    r@[i] as int
                } else {
                    r@[i] - 1
                }) <= TILE_EDGE_LIMIT,
    {
        let first = column_at(start, tile, factor);
        let last = column_at(end, tile, factor);
        assert(abs(last as int) <= 3 * COORDINATE_LIMIT + 1) by (nonlinear_arith)
            requires
                tile * (abs(last as int) - 1) <= abs(end as int),
                abs(end as int) <= 3 * COORDINATE_LIMIT,
                tile >= 1,
        ;
        let r = nonzero_indices(first, last);
        assert forall|i: int| 0 <= i < r@.len() implies #[trigger] r@[i] != 0 && -TILE_EDGE_LIMIT
            <= tile * (if r@[i] < 0 {
            r@[i] as int
        } else {
            r@[i] - 1
        }) <= TILE_EDGE_LIMIT by {
            lemma_column_edge(r@[i] as int, first as int, last as int, tile as int, start as int, end as int);
        }
        r
    }

    /// The tiles seen through the viewport at the current scale, row after
    /// row, each of the layer's tile extent. No tile has column or row zero.
    pub fn visible_tiles(&self) -> (r: Vec<TiledLayerTile>)
        requires
            self.wf(),
        ensures
            r@.len() == self@.visible_cells().len(),
            forall|i: int|
                0 <= i < r@.len() ==> visible_tile(#[trigger] r@[i], self@.visible_cells()[i], self@.tile_extent),
    {
        let factor = self.scale_factor.tile_scale_factor();
        let b = self.viewport_doubled();
        let tile = self.tile_extent;
        let columns = TiledLayer::span_between(b.0, b.2, tile.width, factor);
        let rows = TiledLayer::span_between(b.1, b.3, tile.height, factor);
        let mut tiles: Vec<TiledLayerTile> = Vec::new();
        let mut i: usize = 0;
        while i < rows.len()
            invariant
                0 <= i <= rows@.len(),
                0 <= tile.width <= COORDINATE_LIMIT,
                0 <= tile.height <= COORDINATE_LIMIT,
                forall|k: int|
                    0 <= k < columns@.len() ==> #[trigger] columns@[k] != 0 && -TILE_EDGE_LIMIT <= tile.width * (if columns@[k] < 0 {
                        columns@[k] as int
                    } else {
                        columns@[k] - 1
                    }) <= TILE_EDGE_LIMIT,
                forall|k: int|
                    0 <= k < rows@.len() ==> #[trigger] rows@[k] != 0 && -TILE_EDGE_LIMIT <= tile.height * (if rows@[k] < 0 {
                        rows@[k] as int
                    } else {
                        rows@[k] - 1
                    }) <= TILE_EDGE_LIMIT,
                tiles@.len() == tile_grid(columns@, rows@.subrange(0, i as int)).len(),
                forall|k: int|
                    0 <= k < tiles@.len() ==> visible_tile(
                        #[trigger] tiles@[k],
                        tile_grid(columns@, rows@.subrange(0, i as int))[k],
                        tile,
                    ),
            decreases rows@.len() - i,
        {
            let row = rows[i];
            let ghost base = tiles@.len();
            let ghost done = tile_grid(columns@, rows@.subrange(0, i as int));
            let mut j: usize = 0;
            while j < columns.len()
                invariant
                    0 <= j <= columns@.len(),
                    0 <= tile.width <= COORDINATE_LIMIT,
                    0 <= tile.height <= COORDINATE_LIMIT,
                    forall|k: int|
                        0 <= k < columns@.len() ==> #[trigger] columns@[k] != 0 && -TILE_EDGE_LIMIT <= tile.width * (if columns@[k] < 0 {
                            columns@[k] as int
                        } else {
                            columns@[k] - 1
                        }) <= TILE_EDGE_LIMIT,
                    row != 0,
                    -TILE_EDGE_LIMIT <= tile.height * (if row < 0 {
                        row as int
                    } else {
                        row - 1
                    }) <= TILE_EDGE_LIMIT,
                    base == done.len(),
                    tiles@.len() == base + j,
                    forall|k: int| 0 <= k < base ==> visible_tile(#[trigger] tiles@[k], done[k], tile),
                    forall|k: int|
                        base <= k < base + j ==> visible_tile(
                            #[trigger] tiles@[k],
                            (columns@[k - base], row),
                            tile,
                        ),
                decreases columns@.len() - j,
            {
                let t = TiledLayerTile { column: columns[j], row, extent: tile };
                tiles.push(t);
                j = j + 1;
            }
            proof {
                let next = rows@.subrange(0, i + 1);
                assert(next.drop_last() =~= rows@.subrange(0, i as int));
                assert(next.last() == row);
                let grid = tile_grid(columns@, next);
                let added = columns@.map_values(|c: i64| (c, next.last()));
                assert(grid == done + added);
                assert forall|k: int| 0 <= k < tiles@.len() implies visible_tile(
                    #[trigger] tiles@[k],
                    grid[k],
                    tile,
                ) by {
                    if k >= base {
                        assert(grid[k] == added[k - base]);
                    } else {
                        assert(grid[k] == done[k]);
                    }
                }
            }
            i = i + 1;
        }
        assert(rows@.subrange(0, rows@.len() as int) =~= rows@);
        tiles
    }
}

impl Default for TiledLayer {
    /// A layer seen from the origin through a 600 by 400 viewport, with 128 by
    /// 128 tiles.
    fn default() -> (r: TiledLayer)
        ensures
            r.wf(),
            r@.camera_position == (Point { x: 0, y: 0 }),
            r@.viewport_extent == (Extent { width: 600, height: 400 }),
            r@.tile_extent == (Extent { width: 128, height: 128 }),
            r@.figures == Map::<TiledFigureId, TiledLayerFigure>::empty(),
    {
        TiledLayer::new(Point::zero(), Extent::new(600, 400), Extent::new(128, 128))
    }
}

/// The visible columns run from left to right and the visible rows from top
/// to bottom: the first is never after the last.
pub proof fn lemma_visible_span_ordered(v: TiledLayerView)
    requires
        v.wf(),
    ensures
        v.left_tile_column() <= v.right_tile_column(),
        v.top_tile_row() <= v.bottom_tile_row(),
{
    lemma_tile_scale_factor_bounds(v.scale_factor);
    let b = v.viewport_box();
    lemma_index_at_monotone(b.0, b.2, v.tile_extent.width as int, v.tile_factor());
    lemma_index_at_monotone(b.1, b.3, v.tile_extent.height as int, v.tile_factor());
}

/// What composing one tile takes: its cached picture, or else the figure
/// pictures to record one from, each with its figure's id.
pub struct TileWork {
    pub tile: TiledLayerTile,
    pub cached: Option<PictureLayer>,
    pub figures: Vec<(TiledFigureId, OffsetLayer)>,
}

/// Does `o` draw the picture of `f`, moved to where `f` lies relative to the
/// tile's origin?
pub open spec fn draws_figure_on_tile(o: OffsetLayer, f: TiledLayerFigure, tile: TiledLayerTile) -> bool {
    &&& f.picture is Some
    &&& o.offset.x == f.offset.x - tile.left_spec()
    &&& o.offset.y == f.offset.y - tile.top_spec()
    &&& o.layers@.len() == 1
    &&& *o.layers@[0] == Layer::Picture(f.picture->0)
}

} // verus!
