//! The spatial index of a tiled layer's figures, kept in an r-tree.
//!
//! The index holds each figure's id with its bounding box in doubled
//! coordinates, so that a box centred on a whole point with an odd size still
//! has whole corners.
use rstar::primitives::{GeomWithData, Rectangle as Envelope};
use rstar::{RTree, AABB};
use vstd::multiset::Multiset;
use vstd::prelude::*;

verus! {

/// The largest magnitude of a corner coordinate in the index.
pub const INDEX_LIMIT: i128 = 0x2000_0000_0000_0000;

/// A figure id with its box: left, top, right and bottom, left <= right and
/// top <= bottom.
pub type IndexEntry = (u32, i128, i128, i128, i128);

/// Do the closed boxes `e` and `(left, top, right, bottom)` share a point?
pub open spec fn intersects(e: IndexEntry, left: i128, top: i128, right: i128, bottom: i128) -> bool {
    e.1 <= right && left <= e.3 && e.2 <= bottom && top <= e.4
}

/// A box that a query over `(left, top, right, bottom)` is to hand out: one
/// that shares a point with it.
pub open spec fn queried(e: IndexEntry, left: i128, top: i128, right: i128, bottom: i128) -> bool {
    intersects(e, left, top, right, bottom)
}

/// How many boxes of `m` belong to `id`.
pub open spec fn count_of_id(m: Multiset<IndexEntry>, id: u32) -> nat {
    m.filter(|e: IndexEntry| e.0 == id).len()
}

/// How many boxes of `m` belong to `id` and share a point with the box
/// `(left, top, right, bottom)`.
pub open spec fn count_in_box(
    m: Multiset<IndexEntry>,
    id: u32,
    left: i128,
    top: i128,
    right: i128,
    bottom: i128,
) -> nat {
    m.filter(|e: IndexEntry| e.0 == id && intersects(e, left, top, right, bottom)).len()
}

/// The boxes in the index, each with its figure id.
pub uninterp spec fn index_entries(index: FigureIndex) -> Multiset<IndexEntry>;

/// An r-tree of figure ids under their boxes.
#[verifier::external_body]
pub struct FigureIndex {
    tree: RTree<GeomWithData<Envelope<[i128; 2]>, u32>>,
}

impl FigureIndex {
    /// Relies on rstar::RTree::new: a new tree holds nothing.
    #[verifier::external_body]
    pub fn new() -> (r: FigureIndex)
        ensures
            index_entries(r) == Multiset::<IndexEntry>::empty(),
    {
        FigureIndex { tree: RTree::new() }
    }

    /// Relies on rstar::RTree::clone: the copy holds the same items.
    #[verifier::external_body]
    pub fn duplicate(&self) -> (r: FigureIndex)
        ensures
            index_entries(r) == index_entries(*self),
    {
        FigureIndex { tree: self.tree.clone() }
    }

    /// Relies on rstar::RTree::insert: the item is added, also when an equal
    /// one is present already. The R* insertion multiplies box widths by
    /// heights and adds a few such areas; with corners within the index
    /// limit none of that leaves the range of `i128`.
    #[verifier::external_body]
    pub fn insert(&mut self, id: u32, left: i128, top: i128, right: i128, bottom: i128)
        requires
            -INDEX_LIMIT <= left <= right <= INDEX_LIMIT,
            -INDEX_LIMIT <= top <= bottom <= INDEX_LIMIT,
        ensures
            index_entries(*final(self)) == index_entries(*old(self)).insert(
                (id, left, top, right, bottom),
            ),
    {
        self.tree.insert(GeomWithData::new(Envelope::from_corners([left, top], [right, bottom]), id))
    }

    /// Relies on rstar::RTree::locate_in_envelope_intersecting: it yields
    /// every item whose box shares a point with the given box, once, and
    /// only those; each id is handed out in the item's place.
    #[verifier::external_body]
    pub fn ids_intersecting(&self, left: i128, top: i128, right: i128, bottom: i128) -> (r: Vec<u32>)
        requires
            left <= right,
            top <= bottom,
        ensures
            forall|i: int|
                0 <= i < r@.len() ==> exists|e: IndexEntry|
                    #[trigger] index_entries(*self).contains(e) && e.0 == #[trigger] r@[i] && intersects(
                        e,
                        left,
                        top,
                        right,
                        bottom,
                    ),
            forall|e: IndexEntry|
                #[trigger] queried(e, left, top, right, bottom) && index_entries(*self).contains(e)
                    ==> r@.contains(e.0),
            forall|id: u32|
                #[trigger] r@.to_multiset().count(id) == count_in_box(
                    index_entries(*self),
                    id,
                    left,
                    top,
                    right,
                    bottom,
                ),
    {
        self.tree.locate_in_envelope_intersecting(AABB::from_corners([left, top], [right, bottom]))
            .map(|item| item.data)
            .collect()
    }

    /// Relies on rstar::RTree::iter: it yields every item once.
    #[verifier::external_body]
    pub fn ids(&self) -> (r: Vec<u32>)
        ensures
            r@.len() == index_entries(*self).len(),
            forall|i: int|
                0 <= i < r@.len() ==> exists|e: IndexEntry|
                    #[trigger] index_entries(*self).contains(e) && e.0 == #[trigger] r@[i],
            forall|e: IndexEntry| #[trigger] index_entries(*self).contains(e) ==> r@.contains(e.0),
            forall|id: u32|
                #[trigger] r@.to_multiset().count(id) == count_of_id(index_entries(*self), id),
    {
        self.tree.iter().map(|item| item.data).collect()
    }
}

} // verus!
