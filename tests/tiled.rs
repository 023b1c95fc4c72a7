use compositor::{
    Extent, PictureLayer, Point, Ratio, Rectangle, TiledLayer, TiledLayerFigure,
    TiledLayerScaleFactor, TiledLayerTile,
};
use fraction::Fraction;

fn zoom(factor: TiledLayerScaleFactor) -> Fraction {
    let z = factor.zoom_level();
    Fraction::new(z.numerator(), z.denominator())
}

#[test]
fn test_scale_factor() {
    assert_eq!(zoom(TiledLayerScaleFactor::scale_in(1, 10)), Fraction::new(1u64, 10u64));
    assert_eq!(zoom(TiledLayerScaleFactor::scale_in(1, 4)), Fraction::new(1u64, 4u64));
    assert_eq!(zoom(TiledLayerScaleFactor::scale_in(35, 100)), Fraction::new(1u64, 3u64));
    assert_eq!(zoom(TiledLayerScaleFactor::scale_in(1, 2)), Fraction::new(1u64, 2u64));
    assert_eq!(zoom(TiledLayerScaleFactor::scale_in(3, 4)), Fraction::new(1u64, 2u64));
    assert_eq!(zoom(TiledLayerScaleFactor::scale_in(1, 1)), Fraction::new(1u64, 1u64));
    assert_eq!(zoom(TiledLayerScaleFactor::scale_in(5, 4)), Fraction::new(1u64, 1u64));
    assert_eq!(zoom(TiledLayerScaleFactor::scale_in(3, 2)), Fraction::new(1u64, 1u64));
    assert_eq!(zoom(TiledLayerScaleFactor::scale_in(7, 4)), Fraction::new(1u64, 1u64));
    assert_eq!(zoom(TiledLayerScaleFactor::scale_in(2, 1)), Fraction::new(2u64, 1u64));
    assert_eq!(zoom(TiledLayerScaleFactor::scale_in(21, 10)), Fraction::new(2u64, 1u64));

    assert_eq!(zoom(TiledLayerScaleFactor::scale_out(1, 10)), Fraction::new(1u64, 10u64));
    assert_eq!(zoom(TiledLayerScaleFactor::scale_out(1, 4)), Fraction::new(1u64, 4u64));
    assert_eq!(zoom(TiledLayerScaleFactor::scale_out(35, 100)), Fraction::new(1u64, 2u64));
    assert_eq!(zoom(TiledLayerScaleFactor::scale_out(1, 2)), Fraction::new(1u64, 2u64));
    assert_eq!(zoom(TiledLayerScaleFactor::scale_out(3, 4)), Fraction::new(1u64, 1u64));
    assert_eq!(zoom(TiledLayerScaleFactor::scale_out(1, 1)), Fraction::new(1u64, 1u64));
    assert_eq!(zoom(TiledLayerScaleFactor::scale_out(5, 4)), Fraction::new(2u64, 1u64));
    assert_eq!(zoom(TiledLayerScaleFactor::scale_out(3, 2)), Fraction::new(2u64, 1u64));
    assert_eq!(zoom(TiledLayerScaleFactor::scale_out(7, 4)), Fraction::new(2u64, 1u64));
    assert_eq!(zoom(TiledLayerScaleFactor::scale_out(2, 1)), Fraction::new(2u64, 1u64));
    assert_eq!(zoom(TiledLayerScaleFactor::scale_out(21, 10)), Fraction::new(3u64, 1u64));
}

#[test]
fn zoom_levels_of_the_documented_scales() {
    assert_eq!(TiledLayerScaleFactor::scale_in(1, 1).zoom_level(), Ratio::new(1, 1));
    assert_eq!(TiledLayerScaleFactor::scale_in(1, 2).zoom_level(), Ratio::new(1, 2));
    assert_eq!(TiledLayerScaleFactor::scale_out(5, 4).zoom_level(), Ratio::new(2, 1));
    assert_eq!(TiledLayerScaleFactor::scale_out(35, 100).zoom_level(), Ratio::new(1, 2));
}

#[test]
fn tile_scale_factor_is_scale_over_zoom() {
    // 3/2 snaps in to 1: the tiles are drawn one and a half times as large.
    assert_eq!(TiledLayerScaleFactor::scale_in(3, 2).tile_scale_factor(), Ratio::new(3, 2));
    // 5/4 snaps out to 2: the tiles are drawn at five eighths.
    assert_eq!(TiledLayerScaleFactor::scale_out(5, 4).tile_scale_factor(), Ratio::new(5, 8));
    // 1/3 snaps in to 1/3: no residual scale.
    assert_eq!(TiledLayerScaleFactor::scale_in(1, 3).tile_scale_factor(), Ratio::new(3, 3));
    assert_eq!(TiledLayerScaleFactor::scale_out(7, 4).value(), Ratio::new(7, 4));
}

fn layer_with_five_figures() -> TiledLayer {
    let mut layer = TiledLayer::new(Point::new(0, 0), Extent::new(600, 400), Extent::new(128, 128));
    let offsets = [(-250, -150), (-100, 50), (0, 0), (120, -180), (240, 150)];
    for (i, (x, y)) in offsets.iter().enumerate() {
        layer.add_figure(TiledLayerFigure::new(i as u32 + 1, Point::new(*x, *y), Extent::new(20, 20)));
    }
    layer
}

fn sorted_ids(figures: &[TiledLayerFigure]) -> Vec<u32> {
    let mut ids: Vec<u32> = figures.iter().map(|f| f.id()).collect();
    ids.sort();
    ids
}

#[test]
fn visible_figures_are_the_added_ones() {
    let layer = layer_with_five_figures();
    assert_eq!(sorted_ids(&layer.visible_figures()), vec![1, 2, 3, 4, 5]);
    assert_eq!(sorted_ids(&layer.figures()), vec![1, 2, 3, 4, 5]);
}

#[test]
fn far_viewport_sees_no_figure() {
    let layer = layer_with_five_figures().with_camera_position(Point::new(100_000, -100_000));
    assert!(layer.visible_figures().is_empty());
    assert_eq!(layer.figures().len(), 5);
}

#[test]
fn partial_viewport_sees_some_figures() {
    let mut layer =
        TiledLayer::new(Point::new(300, 200), Extent::new(200, 200), Extent::new(128, 128));
    layer.add_figure(TiledLayerFigure::new(1, Point::new(250, 150), Extent::new(10, 10)));
    layer.add_figure(TiledLayerFigure::new(2, Point::new(0, 0), Extent::new(10, 10)));
    // The box of figure 3 touches the viewport's left edge at x = 200.
    layer.add_figure(TiledLayerFigure::new(3, Point::new(190, 150), Extent::new(10, 10)));
    assert_eq!(sorted_ids(&layer.visible_figures()), vec![1, 3]);
}

#[test]
fn visible_tiles_skip_zero() {
    let layer = TiledLayer::new(Point::new(10, 10), Extent::new(600, 400), Extent::new(128, 128));
    let tiles = layer.visible_tiles();
    assert!(!tiles.is_empty());
    for tile in &tiles {
        assert_ne!(tile.column, 0);
        assert_ne!(tile.row, 0);
    }
    assert_eq!(layer.left_tile_column(), -3);
    assert_eq!(layer.right_tile_column(), 3);
    assert_eq!(layer.top_tile_row(), -2);
    assert_eq!(layer.bottom_tile_row(), 2);
    assert_eq!(tiles.len(), 6 * 4);
    assert_eq!(tiles[0].coordinate(), (-3, -2));
    assert_eq!(tiles[1].coordinate(), (-2, -2));
    assert_eq!(tiles[3].coordinate(), (1, -2));
    assert_eq!(tiles[6].coordinate(), (-3, -1));
}

#[test]
fn small_viewport_inside_first_tile() {
    let layer = TiledLayer::new(Point::new(5, 5), Extent::new(4, 4), Extent::new(128, 128));
    let tiles = layer.visible_tiles();
    assert_eq!(tiles.len(), 1);
    assert_eq!(tiles[0].coordinate(), (1, 1));
}

#[test]
fn viewport_around_origin_skips_zero() {
    let layer = TiledLayer::new(Point::new(0, 0), Extent::new(4, 4), Extent::new(128, 128));
    let coordinates: Vec<(i64, i64)> = layer.visible_tiles().iter().map(|t| t.coordinate()).collect();
    assert_eq!(coordinates, vec![(-1, -1), (1, -1), (-1, 1), (1, 1)]);
}

#[test]
fn scale_changes_the_visible_columns() {
    // Scaled out at 5/4 the tiles are 80 units wide: 300 / 80 = 3.75.
    let layer = TiledLayer::new(Point::new(0, 0), Extent::new(600, 400), Extent::new(128, 128))
        .with_scale_factor(TiledLayerScaleFactor::scale_out(5, 4));
    assert_eq!(layer.right_tile_column(), 4);
    assert_eq!(layer.left_tile_column(), -4);
}

#[test]
fn tile_edges() {
    let mut tile = TiledLayerTile::new(-2, 3);
    tile.extent = Extent::new(100, 50);
    assert_eq!(tile.left(), 200);
    assert_eq!(tile.right(), 300);
    assert_eq!(tile.top(), -100);
    assert_eq!(tile.bottom(), -50);
    assert_eq!(tile.origin(), Point::new(200, -100));
}

#[test]
fn figures_overlapping_a_tile() {
    let layer = layer_with_five_figures();
    let mut tile = TiledLayerTile::new(1, 1);
    tile.extent = Extent::new(128, 128);
    assert_eq!(sorted_ids(&layer.figures_overlapping_tile(&tile)), vec![3]);
}

#[test]
fn figure_pictures() {
    let mut layer = layer_with_five_figures();
    let picture = PictureLayer::new(42, Rectangle::new(0, 0, 20, 20), true);
    assert!(layer.set_figure_picture(2, picture));
    assert!(!layer.set_figure_picture(99, picture));
    let figure = layer.find_figure_by_id(2).unwrap();
    assert!(figure.has_picture());
    assert_eq!(figure.get_picture(), Some(picture));
    let wrapped = figure.picture().unwrap();
    assert_eq!(wrapped.offset, Point::new(-100, 50));
    assert!(layer.find_figure_by_id(99).is_none());
    assert!(!layer.find_figure_by_id(3).unwrap().has_picture());
}

#[test]
fn tile_picture_cache() {
    let mut layer = TiledLayer::default();
    let mut tile = TiledLayerTile::new(1, 2);
    tile.extent = Extent::new(128, 128);
    assert!(layer.get_tile_picture(&tile).is_none());
    let first = PictureLayer::new(1, Rectangle::new(0, 0, 128, 128), true);
    let second = PictureLayer::new(2, Rectangle::new(0, 0, 128, 128), true);
    layer.cache_tile_picture(&tile, first);
    assert_eq!(layer.get_tile_picture(&tile), Some(first));
    layer.cache_tile_picture(&tile, second);
    assert_eq!(layer.get_tile_picture(&tile), Some(second));
    assert!(layer.get_tile_picture(&TiledLayerTile::new(2, 1)).is_none());
}

#[test]
fn viewport_edges() {
    let layer = TiledLayer::new(Point::new(10, 20), Extent::new(7, 8), Extent::new(128, 128));
    assert_eq!(layer.viewport_left(), 6);
    assert_eq!(layer.viewport_right(), 14);
    assert_eq!(layer.viewport_top(), 16);
    assert_eq!(layer.viewport_bottom(), 24);
    assert_eq!(layer.canvas_offset_doubled(), Point::new(-13, -32));
    assert!(layer.is_debug_mode());
}

#[test]
fn visible_figures_without_pictures() {
    let mut layer = layer_with_five_figures();
    let picture = PictureLayer::new(7, Rectangle::new(0, 0, 20, 20), true);
    layer.set_figure_picture(2, picture);
    layer.set_figure_picture(5, picture);
    assert_eq!(sorted_ids(&layer.visible_figures_without_picture()), vec![1, 3, 4]);
    let mut ids = layer.visible_figures_ids_without_picture();
    ids.sort();
    assert_eq!(ids, vec![1, 3, 4]);
}

#[test]
fn figures_without_pictures_within_visible_tiles() {
    let mut layer = layer_with_five_figures();
    let picture = PictureLayer::new(7, Rectangle::new(0, 0, 20, 20), true);
    layer.set_figure_picture(4, picture);
    let ids = layer.visible_figures_ids_within_tiles_without_picture();
    for pair in ids.windows(2) {
        assert_ne!(pair[0], pair[1]);
    }
    let mut distinct = ids.clone();
    distinct.sort();
    distinct.dedup();
    assert_eq!(distinct, vec![1, 2, 3, 5]);
}

#[test]
fn figures_within_tiles_of_a_moved_camera() {
    let layer = layer_with_five_figures().with_camera_position(Point::new(5_000, 5_000));
    assert!(layer.visible_figures_ids_within_tiles_without_picture().is_empty());
}

#[test]
fn tile_work_moves_figure_pictures_to_the_tile() {
    let mut layer = layer_with_five_figures();
    let picture = PictureLayer::new(30, Rectangle::new(0, 0, 20, 20), true);
    layer.set_figure_picture(3, picture);
    let mut tile = TiledLayerTile::new(-1, -1);
    tile.extent = Extent::new(128, 128);
    let work = layer.tile_work(&tile);
    assert!(work.cached.is_none());
    assert_eq!(work.figures.len(), 1);
    assert_eq!(work.figures[0].0, 3);
    assert_eq!(work.figures[0].1.offset, Point::new(128, 128));
    let recorded = PictureLayer::new(99, Rectangle::new(0, 0, 128, 128), true);
    layer.cache_tile_picture(&tile, recorded);
    let work = layer.tile_work(&tile);
    assert_eq!(work.cached, Some(recorded));
    assert!(work.figures.is_empty());
}

#[test]
fn tile_work_skips_figures_without_pictures() {
    let layer = layer_with_five_figures();
    let mut tile = TiledLayerTile::new(1, 1);
    tile.extent = Extent::new(128, 128);
    let work = layer.tile_work(&tile);
    assert!(work.cached.is_none());
    assert!(work.figures.is_empty());
}

#[test]
fn figures_at_the_limit_do_not_overflow_the_index() {
    let limit = compositor::FIGURE_LIMIT;
    let mut layer = TiledLayer::default();
    for id in 0..7 {
        layer.add_figure(TiledLayerFigure::new(id, Point::new(-limit, -limit), Extent::new(-limit, -limit)));
    }
    layer.add_figure(TiledLayerFigure::new(7, Point::new(limit, limit), Extent::new(limit, limit)));
    layer.add_figure(TiledLayerFigure::new(8, Point::new(limit, -limit), Extent::new(limit, limit)));
    assert_eq!(layer.figures().len(), 9);
    assert!(layer.visible_figures().is_empty());
    assert!(!TiledLayerFigure::new(1, Point::new(limit + 1, 0), Extent::new(1, 1)).is_within_limit());
}
