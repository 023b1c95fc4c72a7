use compositor::{Circle, Color, Geometry, Point, Radius, Rectangle, Shadow, ShadowCache};

#[test]
fn test_shadow_equals() {
    let shadow = Shadow::new(Color::from_argb(0), Radius::new(5, 5), Point::new(0, 1), Geometry::Empty);
    let similar_shadow =
        Shadow::new(Color::from_argb(0), Radius::new(5, 5), Point::new(0, 1), Geometry::Empty);
    assert_eq!(shadow, similar_shadow);
}

#[test]
fn test_shadow_cull_rect() {
    let shadow = Shadow::new(
        Color::from_argb(0),
        Radius::new(20, 10),
        Point::new(200, 100),
        Geometry::Rectangle(Rectangle::extent(300, 200)),
    );
    assert_eq!(shadow.cull_rect(), Rectangle::new(200, 100, 420, 260));
}

#[test]
fn test_hash_cached_shadow() {
    let cache: ShadowCache<u8> = ShadowCache::new();
    let shadow = Shadow::default();
    assert_eq!(cache.has_cached_shadow(&shadow), false);
}

#[test]
fn equal_shadows_hash_alike_and_share_a_cache_entry() {
    let make = || {
        Shadow::new(
            Color::from_argb(0xFF00_0000),
            Radius::new(4, 6),
            Point::new(3, -2),
            Geometry::Circle(Circle::new(Point::new(10, 10), 5)),
        )
    };
    let a = make();
    let b = make();
    assert_eq!(a.hash, b.hash);
    assert_eq!(a.compute_default_hash(), a.hash);
    let mut cache: ShadowCache<&str> = ShadowCache::new();
    cache.push_shadow_image(a, "raster");
    assert!(cache.has_cached_shadow(&b));
    assert_eq!(cache.get_shadow_image(&b), Some(&"raster"));
    cache.push_shadow_image(b, "again");
    assert_eq!(cache.count_cached_shadows(), 1);
}

#[test]
fn different_shadows_are_different_keys() {
    let a = Shadow::new(Color::from_argb(1), Radius::new(1, 1), Point::zero(), Geometry::Empty);
    let b = Shadow::new(Color::from_argb(2), Radius::new(1, 1), Point::zero(), Geometry::Empty);
    let mut cache: ShadowCache<u8> = ShadowCache::new();
    cache.push_shadow_image(a, 1);
    assert!(!cache.has_cached_shadow(&b));
    assert_eq!(cache.get_shadow_image(&b), None);
}

#[test]
fn inflation_and_total_offset() {
    let shadow = Shadow::new(Color::from_argb(0), Radius::new(2, 3), Point::new(10, 20), Geometry::Empty);
    assert_eq!(shadow.inflation_offset(), Point::new(6, 9));
    assert_eq!(shadow.total_offset(), Point::new(16, 29));
}

#[test]
fn circle_shadow_cull_rect() {
    let shadow = Shadow::new(
        Color::from_argb(0),
        Radius::new(1, 2),
        Point::new(5, 5),
        Geometry::Circle(Circle::new(Point::new(10, 20), 4)),
    );
    assert_eq!(shadow.cull_rect(), Rectangle::new(11, 21, 14, 20));
}

#[test]
fn equal_shadow_built_apart_is_rasterized_once() {
    let make = || Shadow::new(Color::from_argb(7), Radius::new(2, 2), Point::new(1, 1), Geometry::Empty);
    let mut cache: ShadowCache<&str> = ShadowCache::new();
    let mut rasterizations = 0;
    for frame in 0..4 {
        cache.mark_images_as_not_used();
        let shadow = make();
        if cache.shadow_step(&shadow) == compositor::ShadowAction::Rasterize {
            rasterizations += 1;
            cache.push_shadow_image(shadow, "raster");
        }
        assert_eq!(cache.count_cached_shadows(), 1, "frame {}", frame);
        cache.remove_unused_images();
    }
    assert_eq!(rasterizations, 1);
}
