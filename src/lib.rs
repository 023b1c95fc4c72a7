//! A retained-mode scene-graph compositor: a tree of layers, the frame cache
//! of rasterized pictures and shadows, and tiled layers with their spatial
//! index and zoom snapping.
mod cache;
mod compose;
mod figure;
mod geometry;
mod layers;
mod scale;
mod shadow;
mod spatial;
mod tile;
mod tiled;

pub use cache::{
    apply_event, apply_events, cached_scale, countdown_at_least, countdown_at_most, decremented,
    fresh, frame, has_key, holds_image, keys_unique, lemma_read_entry_kept,
    lemma_equal_shadows_share_raster, lemma_picture_reused_every_frame,
    lemma_same_scale_reuses_raster, lemma_stored_entry_kept, lemma_unread_entry_evicted,
    shadow_step_action, stores_key,
    marked_not_used, mentions, picture_step_decision, read_key, read_result, refreshed,
    run_frames, stored, swept, Cache, CachedImage, CachedShadowImage, FrameCache, FrameEvent,
    ImageCache, ScaleKey, ShadowCache, CACHED_SHADOW_UNUSED_FRAMES_LIMIT,
};
pub use compose::{
    decide_picture, picture_decision, shadow_action, LatestFrame, PictureAction, PictureDecision,
    PictureRasterizer, ShadowAction, ShadowRasterizer, SyncRasterizer,
};
pub use figure::{figure_entry, max_of, min_of, TiledFigureId, TiledLayerFigure, FIGURE_LIMIT};
pub use geometry::{
    fits, Circle, Color, Extent, Geometry, Matrix, Path, Point, Radius, Rectangle,
    RoundedRectangle, Scalar,
};
pub use layers::{
    lemma_rebuild_with_own_layers, same_layer, share_layers, visits_next, Backend, BorrowedTexture, Clip,
    ClipLayer, Compositor, DynamicOffsetLayer, ExplicitLayer, ExternalTexture, Layer, LayerKind,
    LeftoverStateLayer, OffsetLayer, OpacityLayer, PictureLayer, ShadowLayer, StateCommand,
    StateCommandType, Texture, TextureLayer, TransformationLayer, OPAQUE_ALPHA,
};
pub use scale::{ceil_div, lemma_tile_scale_factor_bounds, Ratio, TiledLayerScaleFactor};
pub use shadow::{
    lemma_equal_parameters_equal_hash, parameter_writes_of, structural_hash_of, Shadow,
};
pub use spatial::{index_entries, intersects, queried, FigureIndex, IndexEntry, INDEX_LIMIT};
pub use tile::{
    abs, index_at, nonzero_span, tile_grid, touches_tile, visible_tile, ColumnIndex, RowIndex,
    TiledLayerTile, COORDINATE_LIMIT, TILE_EDGE_LIMIT,
};
pub use tiled::{
    cells_unique, draws_figure_on_tile, geometry_wf, lemma_visible_span_ordered, tile_picture_at,
    TilePicture, TileWork, TiledLayer, TiledLayerView,
};
