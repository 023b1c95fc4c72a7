//! The decisions that a compositor takes for pictures and shadows, apart
//! from the drawing itself.
use vstd::prelude::*;

verus! {

/// What to do with a picture layer.
#[derive(Clone, Copy, Debug, PartialEq, Eq, Hash, Structural)]
pub enum PictureAction {
    /// Blit the cached raster, moved to where the picture now lies.
    DrawCached,
    /// Rasterize the picture at the current transformation, draw the raster
    /// and cache it with that transformation.
    Rasterize,
    /// Replay the picture's drawing program on the destination.
    DrawDirectly,
}

/// The decision for a picture layer, and whether the cached raster is stale
/// and must be dropped first.
#[derive(Clone, Copy, Debug, PartialEq, Eq, Hash, Structural)]
pub struct PictureDecision {
    pub action: PictureAction,
    pub evict_cached: bool,
}

/// The decision of `picture_decision`.
pub open spec fn decide_picture(cached: bool, same_scale: bool, needs_cache: bool) -> PictureDecision {
    if cached && same_scale {
        PictureDecision { action: PictureAction::DrawCached, evict_cached: false }
    } else if needs_cache {
        PictureDecision { action: PictureAction::Rasterize, evict_cached: cached }
    } else {
        PictureDecision { action: PictureAction::DrawDirectly, evict_cached: cached }
    }
}

/// Decides how to compose a picture layer. `cached` tells whether the cache
/// holds a raster of the picture; `same_scale`, whether the scale of the
/// transformation it was rasterized at equals the current one; `needs_cache`
/// is the layer's flag. A raster at another scale is dropped, and the
/// picture is then handled as if nothing were cached.
pub fn picture_decision(cached: bool, same_scale: bool, needs_cache: bool) -> (r: PictureDecision)
    ensures
        r == decide_picture(cached, same_scale, needs_cache),
        r.evict_cached == (cached && !same_scale),
        cached && same_scale ==> r.action == PictureAction::DrawCached,
        !(cached && same_scale) && needs_cache ==> r.action == PictureAction::Rasterize,
        !(cached && same_scale) && !needs_cache ==> r.action == PictureAction::DrawDirectly,
{
    if cached && same_scale {
        PictureDecision { action: PictureAction::DrawCached, evict_cached: false }
    } else {
        let action = if needs_cache {
            PictureAction::Rasterize
        } else {
            PictureAction::DrawDirectly
        };
        PictureDecision { action, evict_cached: cached }
    }
}

/// What to do with a shadow layer.
#[derive(Clone, Copy, Debug, PartialEq, Eq, Hash, Structural)]
pub enum ShadowAction {
    /// Blit the cached raster of the shadow.
    DrawCached,
    /// Rasterize the shadow, draw the raster and cache it; if the backend
    /// cannot rasterize it, draw the shadow directly.
    Rasterize,
}

/// Decides how to compose a shadow layer from whether its raster is cached.
pub fn shadow_action(cached: bool) -> (r: ShadowAction)
    ensures
        cached <==> r == ShadowAction::DrawCached,
        !cached <==> r == ShadowAction::Rasterize,
{
    if cached {
        ShadowAction::DrawCached
    } else {
        ShadowAction::Rasterize
    }
}

/// The layer to be drawn next. A new submission replaces the previous one
/// whether or not it was drawn: the last writer wins, and nothing queues.
pub struct LatestFrame<L> {
    layer: Option<L>,
}

impl<L> View for LatestFrame<L> {
    type V = Option<L>;

    closed spec fn view(&self) -> Option<L> {
        self.layer
    }
}

impl<L> LatestFrame<L> {
    pub fn new() -> (r: Self)
        ensures
            r@ is None,
    {
        LatestFrame { layer: None }
    }

    /// Makes `layer` the one to draw next, dropping an earlier submission.
    pub fn submit_layer(&mut self, layer: L)
        ensures
            final(self)@ == Some(layer),
    {
        self.layer = Some(layer);
    }

    /// The layer to draw, which stays submitted until the next submission.
    pub fn latest(&self) -> (r: Option<&L>)
        ensures
            r matches Some(l) ==> self@ == Some(*l),
            r is None <==> self@ is None,
    {
        self.layer.as_ref()
    }
}

/// Rasterizes pictures into offscreen images; the work is the backend's.
#[derive(Clone, Copy, Debug, PartialEq, Eq, Hash, Default, Structural)]
pub struct PictureRasterizer {}

impl PictureRasterizer {
    pub fn new() -> Self {
        PictureRasterizer {}
    }
}

/// Rasterizes shadows into offscreen images; the work is the backend's.
#[derive(Clone, Copy, Debug, PartialEq, Eq, Hash, Default, Structural)]
pub struct ShadowRasterizer {}

impl ShadowRasterizer {
    pub fn new() -> Self {
        ShadowRasterizer {}
    }
}

/// Rasterizes batches of pictures and shadows one after the other.
#[derive(Clone, Copy, Debug, PartialEq, Eq, Hash, Default, Structural)]
pub struct SyncRasterizer {}

impl SyncRasterizer {
    pub fn new() -> Self {
        SyncRasterizer {}
    }
}

} // verus!
