use compositor::{
    picture_decision, shadow_action, Cache, CachedImage, ImageCache, PictureAction, Shadow,
    ShadowAction, CACHED_SHADOW_UNUSED_FRAMES_LIMIT,
};

fn frame(cache: &mut ImageCache<&'static str>, reads: &[u32]) {
    cache.mark_images_as_not_used();
    for id in reads {
        let _ = cache.get_picture_image(*id);
    }
    cache.remove_unused_images();
}

#[test]
fn unread_entry_is_evicted_after_the_limit() {
    let mut cache: ImageCache<&str> = ImageCache::new();
    cache.push_id_image(7, "seven");
    for _ in 0..CACHED_SHADOW_UNUSED_FRAMES_LIMIT - 1 {
        frame(&mut cache, &[]);
        assert!(cache.has_cached_picture(7));
    }
    frame(&mut cache, &[]);
    assert!(!cache.has_cached_picture(7));
    assert_eq!(cache.count_cached_images(), 0);
}

#[test]
fn entry_read_every_frame_is_kept() {
    let mut cache: ImageCache<&str> = ImageCache::new();
    cache.push_id_image(1, "one");
    cache.push_id_image(2, "two");
    for _ in 0..20 {
        frame(&mut cache, &[1]);
    }
    assert!(cache.has_cached_picture(1));
    assert!(!cache.has_cached_picture(2));
    assert_eq!(cache.get_picture_image(1), Some(&"one"));
}

#[test]
fn a_read_resets_the_countdown() {
    let mut cache: ImageCache<&str> = ImageCache::new();
    cache.push_id_image(3, "three");
    frame(&mut cache, &[]);
    frame(&mut cache, &[]);
    frame(&mut cache, &[3]);
    for _ in 0..CACHED_SHADOW_UNUSED_FRAMES_LIMIT - 1 {
        frame(&mut cache, &[]);
        assert!(cache.has_cached_picture(3));
    }
    frame(&mut cache, &[]);
    assert!(!cache.has_cached_picture(3));
}

#[test]
fn remove_unused_images_counts_removed_entries() {
    let mut cache: ImageCache<u8> = ImageCache::new();
    cache.push_id_image(1, 1);
    cache.push_id_image(2, 2);
    cache.push_id_image(3, 3);
    for _ in 0..CACHED_SHADOW_UNUSED_FRAMES_LIMIT {
        cache.mark_images_as_not_used();
    }
    assert_eq!(cache.remove_unused_images(), 3);
    assert_eq!(cache.len(), 0);
}

#[test]
fn storing_again_replaces_the_raster() {
    let mut cache: ImageCache<&str> = ImageCache::new();
    cache.push_id_image(5, "old");
    cache.push_id_image(5, "new");
    assert_eq!(cache.count_cached_images(), 1);
    assert_eq!(cache.get_picture_image(5), Some(&"new"));
}

#[test]
fn removing_a_picture_keeps_the_others() {
    let mut cache: ImageCache<&str> = ImageCache::new();
    cache.push_id_image(1, "one");
    cache.push_id_image(2, "two");
    cache.remove_picture_image(1);
    assert!(!cache.has_cached_picture(1));
    assert_eq!(cache.get_picture_image(2), Some(&"two"));
}

#[test]
fn cached_entry_countdown() {
    let mut entry = CachedImage::new(1u32, "x");
    assert_eq!(entry.frames_to_purge, CACHED_SHADOW_UNUSED_FRAMES_LIMIT);
    entry.mark_used();
    assert_eq!(entry.frames_to_purge, CACHED_SHADOW_UNUSED_FRAMES_LIMIT);
    for _ in 0..CACHED_SHADOW_UNUSED_FRAMES_LIMIT + 2 {
        entry.mark_not_used();
    }
    assert_eq!(entry.frames_to_purge, 0);
    assert!(entry.should_purge());
    entry.mark_used();
    assert_eq!(entry.frames_to_purge, CACHED_SHADOW_UNUSED_FRAMES_LIMIT);
    assert!(!entry.should_purge());
}

#[test]
fn facade_keeps_the_two_caches_apart() {
    let mut cache: Cache<&str, &str> = Cache::new();
    cache.push_shadow_image(Shadow::default(), "shadow");
    cache.push_id_image(4, "picture");
    assert_eq!(cache.get_picture_image(4), Some(&"picture"));
    assert_eq!(cache.get_shadow_image(&Shadow::default()), Some(&"shadow"));
    for _ in 0..CACHED_SHADOW_UNUSED_FRAMES_LIMIT {
        cache.mark_images_as_not_used();
    }
    assert_eq!(cache.remove_unused_images(), (1, 1));
}

#[test]
fn picture_cached_at_same_scale_is_blitted() {
    let d = picture_decision(true, true, true);
    assert_eq!(d.action, PictureAction::DrawCached);
    assert!(!d.evict_cached);
}

#[test]
fn picture_cached_at_other_scale_is_rasterized_again() {
    let d = picture_decision(true, false, true);
    assert_eq!(d.action, PictureAction::Rasterize);
    assert!(d.evict_cached);
    let d = picture_decision(true, false, false);
    assert_eq!(d.action, PictureAction::DrawDirectly);
    assert!(d.evict_cached);
}

#[test]
fn uncached_picture() {
    assert_eq!(picture_decision(false, false, true).action, PictureAction::Rasterize);
    assert_eq!(picture_decision(false, true, false).action, PictureAction::DrawDirectly);
    assert!(!picture_decision(false, true, true).evict_cached);
}

#[test]
fn picture_rasterized_once_then_reused() {
    let mut cache: ImageCache<&str> = ImageCache::new();
    let mut rasterizations = 0;
    for _ in 0..3 {
        cache.mark_images_as_not_used();
        let cached = cache.get_picture_image(11).is_some();
        let d = picture_decision(cached, true, true);
        if d.action == PictureAction::Rasterize {
            rasterizations += 1;
            cache.push_id_image(11, "raster");
        }
        cache.remove_unused_images();
    }
    assert_eq!(rasterizations, 1);
}

#[test]
fn shadow_decisions() {
    assert_eq!(shadow_action(true), ShadowAction::DrawCached);
    assert_eq!(shadow_action(false), ShadowAction::Rasterize);
}

#[test]
fn picture_step_reuses_a_raster_at_the_same_scale() {
    let mut cache: ImageCache<(&str, (u32, u32))> = ImageCache::new();
    let layer = compositor::PictureLayer::new(8, compositor::Rectangle::new(0, 0, 50, 50), true);
    let scale = (0x3F80_0000, 0x3F80_0000);
    let first = cache.picture_step(&layer, scale);
    assert_eq!(first.action, PictureAction::Rasterize);
    assert!(!first.evict_cached);
    cache.push_id_image(8, ("raster", scale));
    for _ in 0..3 {
        cache.mark_images_as_not_used();
        let again = cache.picture_step(&layer, scale);
        assert_eq!(again.action, PictureAction::DrawCached);
        cache.remove_unused_images();
    }
    assert!(cache.has_cached_picture(8));
}

#[test]
fn picture_step_drops_a_raster_at_another_scale() {
    let mut cache: ImageCache<(&str, (u32, u32))> = ImageCache::new();
    let layer = compositor::PictureLayer::new(9, compositor::Rectangle::new(0, 0, 50, 50), false);
    cache.push_id_image(9, ("raster", (0x3F80_0000, 0x3F80_0000)));
    let step = cache.picture_step(&layer, (0x4000_0000, 0x4000_0000));
    assert!(step.evict_cached);
    assert_eq!(step.action, PictureAction::DrawDirectly);
    assert!(!cache.has_cached_picture(9));
}
