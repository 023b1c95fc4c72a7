//! The frame cache of rasterized pictures and shadows.
//!
//! Every entry carries a countdown of frames. At the start of each top-level
//! composition every countdown goes down by one; an entry that is read during
//! the composition has its countdown set back to the limit; at the end the
//! entries whose countdown reached zero are removed.
use crate::compose::{
    decide_picture, picture_decision, shadow_action, PictureAction, PictureDecision, ShadowAction,
};
use crate::layers::PictureLayer;
use crate::shadow::{lemma_equal_parameters_equal_hash, Shadow};
use vstd::prelude::*;

verus! {

/// The number of frames after which a cached image that nobody reads is purged.
pub const CACHED_SHADOW_UNUSED_FRAMES_LIMIT: usize = 5;

/// A cached raster under its key, with the frames left before it is purged.
pub struct CachedImage<K, I> {
    pub key: K,
    pub image: I,
    pub frames_to_purge: usize,
}

/// The entry of the shadow cache.
pub type CachedShadowImage<I> = CachedImage<Shadow, I>;

/// An entry as it is when it enters the cache.
pub open spec fn fresh<K, I>(key: K, image: I) -> CachedImage<K, I> {
    CachedImage { key, image, frames_to_purge: CACHED_SHADOW_UNUSED_FRAMES_LIMIT }
}

/// An entry after a frame began: one frame less, but not below zero.
pub open spec fn decremented<K, I>(e: CachedImage<K, I>) -> CachedImage<K, I> {
    CachedImage {
        frames_to_purge: if e.frames_to_purge > 0 {
            (e.frames_to_purge - 1) as usize
        } else {
            0
        },
        ..e
    }
}

/// An entry after it was read: its countdown is back at the limit.
pub open spec fn refreshed<K, I>(e: CachedImage<K, I>) -> CachedImage<K, I> {
    CachedImage { frames_to_purge: CACHED_SHADOW_UNUSED_FRAMES_LIMIT, ..e }
}

/// The entries that stay when unused ones are removed.
pub open spec fn in_use<K, I>() -> spec_fn(CachedImage<K, I>) -> bool {
    |e: CachedImage<K, I>| e.frames_to_purge > 0
}

pub open spec fn has_key<K, I>(s: Seq<CachedImage<K, I>>, key: K) -> bool {
    exists|i: int| 0 <= i < s.len() && s[i].key == key
}

pub open spec fn keys_unique<K, I>(s: Seq<CachedImage<K, I>>) -> bool {
    forall|i: int, j: int|
        0 <= i < s.len() && 0 <= j < s.len() && s[i].key == s[j].key ==> i == j
}

/// All entries, one frame older.
pub open spec fn marked_not_used<K, I>(s: Seq<CachedImage<K, I>>) -> Seq<CachedImage<K, I>> {
    s.map_values(|e: CachedImage<K, I>| decremented(e))
}

/// The entries after the one under `key`, if any, was read.
pub open spec fn read_key<K, I>(s: Seq<CachedImage<K, I>>, key: K) -> Seq<CachedImage<K, I>> {
    s.map_values(|e: CachedImage<K, I>| if e.key == key { refreshed(e) } else { e })
}

/// The entries after `image` was stored under `key`: it replaces the entry
/// under that key, or comes last.
pub open spec fn stored<K, I>(s: Seq<CachedImage<K, I>>, key: K, image: I) -> Seq<
    CachedImage<K, I>,
> {
    if has_key(s, key) {
        s.map_values(|e: CachedImage<K, I>| if e.key == key { fresh(key, image) } else { e })
    } else {
        s.push(fresh(key, image))
    }
}

/// The entries that stay after the unused ones were removed, in order.
pub open spec fn swept<K, I>(s: Seq<CachedImage<K, I>>) -> Seq<CachedImage<K, I>> {
    s.filter(in_use())
}

impl<K, I> CachedImage<K, I> {
    pub fn new(key: K, image: I) -> (r: Self)
        ensures
            r == fresh(key, image),
    {
        CachedImage { key, image, frames_to_purge: CACHED_SHADOW_UNUSED_FRAMES_LIMIT }
    }

    pub fn mark_not_used(&mut self)
        ensures
            *final(self) == decremented(*old(self)),
    {
        if self.frames_to_purge > 0 {
            self.frames_to_purge = self.frames_to_purge - 1;
        }
    }

    pub fn mark_used(&mut self)
        ensures
            *final(self) == refreshed(*old(self)),
    {
        self.frames_to_purge = CACHED_SHADOW_UNUSED_FRAMES_LIMIT;
    }

    pub fn should_purge(&self) -> (r: bool)
        ensures
            r == (self.frames_to_purge == 0),
    {
        self.frames_to_purge == 0
    }
}

/// Cached rasters under keys of type `K`, in the order in which they were
/// first stored.
pub struct FrameCache<K, I> {
    entries: Vec<CachedImage<K, I>>,
}

/// Rasterized shadows, keyed by the shadow's value.
pub type ShadowCache<I> = FrameCache<Shadow, I>;

/// Rasterized pictures, keyed by the picture's id.
pub type ImageCache<I> = FrameCache<u32, I>;

impl<K, I> View for FrameCache<K, I> {
    type V = Seq<CachedImage<K, I>>;

    closed spec fn view(&self) -> Seq<CachedImage<K, I>> {
        self.entries@
    }
}

impl<K, I> FrameCache<K, I> {
    /// Each key has one entry at most, and no countdown exceeds the limit.
    pub open spec fn wf(&self) -> bool {
        &&& keys_unique(self@)
        &&& forall|i: int|
            0 <= i < self@.len() ==> #[trigger] self@[i].frames_to_purge
                <= CACHED_SHADOW_UNUSED_FRAMES_LIMIT
    }

    pub fn new() -> (r: Self)
        ensures
            r@ == Seq::<CachedImage<K, I>>::empty(),
            r.wf(),
    {
        FrameCache { entries: Vec::new() }
    }

    /// The number of cached rasters.
    pub fn len(&self) -> (r: usize)
        ensures
            r == self@.len(),
    {
        self.entries.len()
    }

    pub fn clear(&mut self)
        ensures
            final(self)@ == Seq::<CachedImage<K, I>>::empty(),
            final(self).wf(),
    {
        self.entries = Vec::new();
    }

    /// Begins a frame: every entry counts one frame down.
    pub fn mark_images_as_not_used(&mut self)
        requires
            old(self).wf(),
        ensures
            final(self)@ == marked_not_used(old(self)@),
            final(self).wf(),
    {
        let ghost s0 = self.entries@;
        let mut i: usize = 0;
        while i < self.entries.len()
            invariant
                0 <= i <= self.entries@.len(),
                self.entries@.len() == s0.len(),
                forall|j: int| 0 <= j < i ==> self.entries@[j] == decremented(#[trigger] s0[j]),
                forall|j: int| i <= j < s0.len() ==> self.entries@[j] == #[trigger] s0[j],
            decreases s0.len() - i,
        {
            self.entries[i].mark_not_used();
            i = i + 1;
        }
        assert(self.entries@ =~= marked_not_used(s0));
        assert(keys_unique(self@));
    }

    /// Ends a frame: removes the entries whose countdown reached zero and
    /// answers how many there were.
    pub fn remove_unused_images(&mut self) -> (r: usize)
        requires
            old(self).wf(),
        ensures
            final(self)@ == swept(old(self)@),
            r == old(self)@.len() - final(self)@.len(),
            final(self).wf(),
    {
        let ghost s0 = self.entries@;
        let size = self.entries.len();
        let mut i: usize = 0;
        let ghost mut j: int = 0;
        while i < self.entries.len()
            invariant
                0 <= i <= self.entries@.len(),
                0 <= j <= s0.len(),
                self.entries@.len() - i == s0.len() - j,
                self.entries@.subrange(0, i as int) == swept(s0.subrange(0, j)),
                self.entries@.subrange(i as int, self.entries@.len() as int) == s0.subrange(
                    j,
                    s0.len() as int,
                ),
                keys_unique(self.entries@),
                forall|k: int|
                    0 <= k < self.entries@.len() ==> #[trigger] self.entries@[k].frames_to_purge
                        <= CACHED_SHADOW_UNUSED_FRAMES_LIMIT,
            decreases self.entries@.len() - i,
        {
            let ghost before = self.entries@;
            assert(s0.subrange(0, j + 1).drop_last() =~= s0.subrange(0, j));
            assert(s0.subrange(0, j + 1).last() == s0[j]);
            proof {
                reveal(Seq::filter);
            }
            assert(before[i as int] == s0[j]) by {
                assert(before.subrange(i as int, before.len() as int)[0] == before[i as int]);
            }
            let ghost rest = before.subrange(i as int, before.len() as int);
            if self.entries[i].should_purge() {
                self.entries.remove(i);
                assert(self.entries@.subrange(0, i as int) =~= before.subrange(0, i as int));
                assert forall|k: int| 0 <= k < self.entries@.len() - i implies #[trigger] self.entries@.subrange(i as int, self.entries@.len() as int)[k] == s0.subrange(j + 1, s0.len() as int)[k] by {
                    assert(rest[k + 1] == before[i + k + 1]);
                    assert(s0.subrange(j, s0.len() as int)[k + 1] == s0[j + 1 + k]);
                }
                assert(self.entries@.subrange(i as int, self.entries@.len() as int)
                    =~= s0.subrange(j + 1, s0.len() as int));
                assert forall|a: int, b: int|
                    0 <= a < self.entries@.len() && 0 <= b < self.entries@.len()
                        && self.entries@[a].key == self.entries@[b].key implies a == b by {
                    let a0 = if a < i { a } else { a + 1 };
                    let b0 = if b < i { b } else { b + 1 };
                    assert(self.entries@[a] == before[a0]);
                    assert(self.entries@[b] == before[b0]);
                }
                assert forall|k: int| 0 <= k < self.entries@.len() implies #[trigger] self.entries@[
                    k].frames_to_purge <= CACHED_SHADOW_UNUSED_FRAMES_LIMIT by {
                    let k0 = if k < i { k } else { k + 1 };
                    assert(self.entries@[k] == before[k0]);
                }
            } else {
                i = i + 1;
                assert(self.entries@.subrange(0, i as int) =~= before.subrange(
                    0,
                    i - 1,
                ).push(before[i - 1]));
                assert forall|k: int| 0 <= k < self.entries@.len() - i implies #[trigger] self.entries@.subrange(i as int, self.entries@.len() as int)[k] == s0.subrange(j + 1, s0.len() as int)[k] by {
                    assert(rest[k + 1] == before[i + k]);
                    assert(s0.subrange(j, s0.len() as int)[k + 1] == s0[j + 1 + k]);
                }
                assert(self.entries@.subrange(i as int, self.entries@.len() as int)
                    =~= s0.subrange(j + 1, s0.len() as int));
            }
            proof {
                j = j + 1;
            }
        }
        assert(s0.subrange(0, j) =~= s0);
        assert(self.entries@ =~= self.entries@.subrange(0, i as int));
        proof {
            lemma_swept_from(s0);
        }
        size - self.entries.len()
    }

    /// Marks entry `i` as read and lends its raster.
    fn read_at(&mut self, i: usize) -> (r: &I)
        requires
            i < old(self)@.len(),
        ensures
            *r == old(self)@[i as int].image,
            final(self)@ == old(self)@.update(i as int, refreshed(old(self)@[i as int])),
    {
        self.entries[i].mark_used();
        &self.entries[i].image
    }

    /// Puts a fresh entry at position `i`, or last when `i` is none.
    fn store_at(&mut self, i: Option<usize>, key: K, image: I)
        requires
            i matches Some(n) ==> n < old(self)@.len(),
        ensures
            i matches Some(n) ==> final(self)@ == old(self)@.update(n as int, fresh(key, image)),
            i is None ==> final(self)@ == old(self)@.push(fresh(key, image)),
    {
        match i {
            Some(n) => {
                self.entries[n] = CachedImage::new(key, image);
            },
            None => {
                self.entries.push(CachedImage::new(key, image));
            },
        }
    }
}

/// What a lookup in the cache finds: the position of the key's entry.
pub open spec fn found_at<K, I>(s: Seq<CachedImage<K, I>>, key: K, r: Option<usize>) -> bool {
    match r {
        Some(i) => i < s.len() && s[i as int].key == key,
        None => !has_key(s, key),
    }
}

/// What a read of the cache hands out: the raster under the key, if any.
pub open spec fn read_result<K, I>(s: Seq<CachedImage<K, I>>, key: K, r: Option<&I>) -> bool {
    &&& (r is Some <==> has_key(s, key))
    &&& forall|i: int|
        0 <= i < s.len() && #[trigger] s[i].key == key ==> (r matches Some(image) && *image
            == s[i].image)
}

impl<K, I> FrameCache<K, I> {
    /// Reads the entry found at `at` for `key`: marks it used and lends its
    /// raster.
    fn read_found(&mut self, key: Ghost<K>, at: Option<usize>) -> (r: Option<&I>)
        requires
            old(self).wf(),
            found_at(old(self)@, key@, at),
        ensures
            final(self)@ == read_key(old(self)@, key@),
            final(self).wf(),
            read_result(old(self)@, key@, r),
    {
        let ghost s0 = self@;
        match at {
            Some(i) => {
                assert(s0.update(i as int, refreshed(s0[i as int])) =~= read_key(s0, key@));
                let r = self.read_at(i);
                Some(r)
            },
            None => {
                assert(self@ =~= read_key(s0, key@));
                None
            },
        }
    }

    /// Stores `image` under `key`, at the position `at` found for it.
    fn store_found(&mut self, key: K, image: I, at: Option<usize>)
        requires
            old(self).wf(),
            found_at(old(self)@, key, at),
        ensures
            final(self)@ == stored(old(self)@, key, image),
            final(self).wf(),
    {
        let ghost s0 = self@;
        let ghost k = key;
        let ghost img = image;
        self.store_at(at, key, image);
        assert(self@ =~= stored(s0, k, img));
    }

    /// Removes the entry found at `at`, if any.
    fn remove_found(&mut self, key: Ghost<K>, at: Option<usize>)
        requires
            old(self).wf(),
            found_at(old(self)@, key@, at),
        ensures
            at matches Some(i) ==> final(self)@ == old(self)@.remove(i as int),
            at is None ==> final(self)@ == old(self)@,
            !has_key(final(self)@, key@),
            final(self).wf(),
    {
        let ghost s0 = self@;
        if let Some(i) = at {
            self.entries.remove(i);
            assert forall|a: int| 0 <= a < self@.len() implies #[trigger] self@[a] == s0[if a < i {
                a
            } else {
                a + 1
            }] by {}
        }
    }
}

impl<I> FrameCache<Shadow, I> {
    fn find_shadow(&self, shadow: &Shadow) -> (r: Option<usize>)
        ensures
            found_at(self@, *shadow, r),
    {
        let mut i: usize = 0;
        while i < self.entries.len()
            invariant
                0 <= i <= self.entries@.len(),
                forall|j: int| 0 <= j < i ==> #[trigger] self.entries@[j].key != *shadow,
            decreases self.entries@.len() - i,
        {
            if self.entries[i].key == *shadow {
                return Some(i);
            }
            i = i + 1;
        }
        None
    }

    /// The rasterized shadow cached for `shadow`, which counts as read.
    pub fn get_shadow_image(&mut self, shadow: &Shadow) -> (r: Option<&I>)
        requires
            old(self).wf(),
        ensures
            final(self)@ == read_key(old(self)@, *shadow),
            final(self).wf(),
            read_result(old(self)@, *shadow, r),
    {
        let at = self.find_shadow(shadow);
        self.read_found(Ghost(*shadow), at)
    }

    /// Decides how to compose a shadow layer from whether the raster of its
    /// shadow is cached; a cached raster counts as read.
    pub fn shadow_step(&mut self, shadow: &Shadow) -> (r: ShadowAction)
        requires
            old(self).wf(),
        ensures
            final(self).wf(),
            final(self)@ == read_key(old(self)@, *shadow),
            r == shadow_step_action(old(self)@, *shadow),
    {
        let at = self.find_shadow(shadow);
        let cached = at.is_some();
        self.read_found(Ghost(*shadow), at);
        shadow_action(cached)
    }

    pub fn has_cached_shadow(&self, shadow: &Shadow) -> (r: bool)
        ensures
            r == has_key(self@, *shadow),
    {
        self.find_shadow(shadow).is_some()
    }

    pub fn count_cached_shadows(&self) -> (r: usize)
        ensures
            r == self@.len(),
    {
        self.entries.len()
    }

    /// Caches `image` as the raster of `shadow`, replacing an earlier one.
    /// Only a well-formed shadow becomes a key, so that shadows with the same
    /// parameters share one entry.
    pub fn push_shadow_image(&mut self, shadow: Shadow, image: I)
        requires
            old(self).wf(),
            shadow.wf(),
        ensures
            final(self)@ == stored(old(self)@, shadow, image),
            final(self).wf(),
    {
        let at = self.find_shadow(&shadow);
        self.store_found(shadow, image, at);
    }
}

impl<I> FrameCache<u32, I> {
    fn find_picture(&self, picture_id: u32) -> (r: Option<usize>)
        ensures
            found_at(self@, picture_id, r),
    {
        let mut i: usize = 0;
        while i < self.entries.len()
            invariant
                0 <= i <= self.entries@.len(),
                forall|j: int| 0 <= j < i ==> #[trigger] self.entries@[j].key != picture_id,
            decreases self.entries@.len() - i,
        {
            if self.entries[i].key == picture_id {
                return Some(i);
            }
            i = i + 1;
        }
        None
    }

    /// The raster cached for the picture `picture_id`, which counts as read.
    pub fn get_picture_image(&mut self, picture_id: u32) -> (r: Option<&I>)
        requires
            old(self).wf(),
        ensures
            final(self)@ == read_key(old(self)@, picture_id),
            final(self).wf(),
            read_result(old(self)@, picture_id, r),
    {
        let at = self.find_picture(picture_id);
        self.read_found(Ghost(picture_id), at)
    }

    pub fn has_cached_picture(&self, picture_id: u32) -> (r: bool)
        ensures
            r == has_key(self@, picture_id),
    {
        self.find_picture(picture_id).is_some()
    }

    pub fn count_cached_images(&self) -> (r: usize)
        ensures
            r == self@.len(),
    {
        self.entries.len()
    }

    /// Caches `image` as the raster of the picture `picture_id`, replacing an
    /// earlier one.
    pub fn push_id_image(&mut self, picture_id: u32, image: I)
        requires
            old(self).wf(),
        ensures
            final(self)@ == stored(old(self)@, picture_id, image),
            final(self).wf(),
    {
        let at = self.find_picture(picture_id);
        self.store_found(picture_id, image, at);
    }

    /// Drops the raster of the picture `picture_id`, if one is cached.
    pub fn remove_picture_image(&mut self, picture_id: u32)
        requires
            old(self).wf(),
        ensures
            !has_key(final(self)@, picture_id),
            forall|i: int|
                0 <= i < old(self)@.len() && old(self)@[i].key != picture_id
                    ==> final(self)@.contains(#[trigger] old(self)@[i]),
            final(self)@.len() <= old(self)@.len(),
            final(self).wf(),
    {
        let ghost s0 = self@;
        let at = self.find_picture(picture_id);
        self.remove_found(Ghost(picture_id), at);
        assert forall|i: int|
            0 <= i < s0.len() && s0[i].key != picture_id implies self@.contains(
                #[trigger] s0[i],
            ) by {
            if let Some(n) = at {
                let a = if i < n { i } else { i - 1 };
                assert(self@[a] == s0[i]);
            } else {
                assert(self@[i] == s0[i]);
            }
        }
    }
}

/// The action for a shadow layer over the cache `s`.
pub open spec fn shadow_step_action<I>(s: Seq<CachedImage<Shadow, I>>, shadow: Shadow) -> ShadowAction {
    if has_key(s, shadow) {
        ShadowAction::DrawCached
    } else {
        ShadowAction::Rasterize
    }
}

/// The scale of a transformation, as the bit patterns of its horizontal and
/// vertical single-precision factors.
pub type ScaleKey = (u32, u32);

/// The scale that the raster cached under `id` was made at.
pub open spec fn cached_scale<I>(s: Seq<CachedImage<u32, (I, ScaleKey)>>, id: u32) -> ScaleKey {
    s[choose|i: int| 0 <= i < s.len() && s[i].key == id].image.1
}

/// The decision for a picture layer composed at `scale` over the cache `s`.
pub open spec fn picture_step_decision<I>(
    s: Seq<CachedImage<u32, (I, ScaleKey)>>,
    layer: PictureLayer,
    scale: ScaleKey,
) -> PictureDecision {
    decide_picture(
        has_key(s, layer.picture_id),
        has_key(s, layer.picture_id) && cached_scale(s, layer.picture_id) == scale,
        layer.needs_cache,
    )
}

impl<I> FrameCache<u32, (I, ScaleKey)> {
    /// Decides how to compose the picture layer at `scale`, from the raster
    /// cached for it and the scale it was made at. A raster at the same scale
    /// is read; a raster at another scale is dropped.
    pub fn picture_step(&mut self, layer: &PictureLayer, scale: ScaleKey) -> (r: PictureDecision)
        requires
            old(self).wf(),
        ensures
            final(self).wf(),
            r == picture_step_decision(old(self)@, *layer, scale),
            !r.evict_cached ==> final(self)@ == read_key(old(self)@, layer.picture_id),
            r.evict_cached ==> !has_key(final(self)@, layer.picture_id),
            r.evict_cached ==> exists|k: int|
                0 <= k < old(self)@.len() && old(self)@[k].key == layer.picture_id
                    && final(self)@ == old(self)@.remove(k),
    {
        let ghost s0 = self@;
        let id = layer.picture_id;
        let at = self.find_picture(id);
        match at {
            Some(i) => {
                let cached = &self.entries[i].image.1;
                let same_scale = cached.0 == scale.0 && cached.1 == scale.1;
                assert(cached_scale(s0, id) == s0[i as int].image.1);
                let decision = picture_decision(true, same_scale, layer.needs_cache);
                if decision.evict_cached {
                    self.remove_found(Ghost(id), at);
                } else {
                    self.read_found(Ghost(id), at);
                }
                decision
            },
            None => {
                assert(self@ =~= read_key(s0, id));
                picture_decision(false, false, layer.needs_cache)
            },
        }
    }
}

/// The two caches of the engine: rasterized shadows (of type `S`) and
/// rasterized pictures (of type `P`).
pub struct Cache<S, P> {
    pub shadow_cache: ShadowCache<S>,
    pub image_cache: ImageCache<P>,
}

impl<S, P> Cache<S, P> {
    pub open spec fn wf(&self) -> bool {
        self.shadow_cache.wf() && self.image_cache.wf()
    }

    pub fn new() -> (r: Self)
        ensures
            r.shadow_cache@ == Seq::<CachedImage<Shadow, S>>::empty(),
            r.image_cache@ == Seq::<CachedImage<u32, P>>::empty(),
            r.wf(),
    {
        Cache { shadow_cache: FrameCache::new(), image_cache: FrameCache::new() }
    }

    /// Begins a frame in both caches.
    pub fn mark_images_as_not_used(&mut self)
        requires
            old(self).wf(),
        ensures
            final(self).shadow_cache@ == marked_not_used(old(self).shadow_cache@),
            final(self).image_cache@ == marked_not_used(old(self).image_cache@),
            final(self).wf(),
    {
        self.image_cache.mark_images_as_not_used();
        self.shadow_cache.mark_images_as_not_used();
    }

    /// Ends a frame in both caches; answers how many pictures and how many
    /// shadows were removed.
    pub fn remove_unused_images(&mut self) -> (r: (usize, usize))
        requires
            old(self).wf(),
        ensures
            final(self).shadow_cache@ == swept(old(self).shadow_cache@),
            final(self).image_cache@ == swept(old(self).image_cache@),
            r.0 == old(self).image_cache@.len() - final(self).image_cache@.len(),
            r.1 == old(self).shadow_cache@.len() - final(self).shadow_cache@.len(),
            final(self).wf(),
    {
        let removed_pictures = self.image_cache.remove_unused_images();
        let removed_shadows = self.shadow_cache.remove_unused_images();
        (removed_pictures, removed_shadows)
    }

    pub fn get_shadow_image(&mut self, shadow: &Shadow) -> (r: Option<&S>)
        requires
            old(self).wf(),
        ensures
            final(self).shadow_cache@ == read_key(old(self).shadow_cache@, *shadow),
            final(self).image_cache@ == old(self).image_cache@,
            read_result(old(self).shadow_cache@, *shadow, r),
            final(self).wf(),
    {
        self.shadow_cache.get_shadow_image(shadow)
    }

    pub fn push_shadow_image(&mut self, shadow: Shadow, image: S)
        requires
            old(self).wf(),
            shadow.wf(),
        ensures
            final(self).shadow_cache@ == stored(old(self).shadow_cache@, shadow, image),
            final(self).image_cache@ == old(self).image_cache@,
            final(self).wf(),
    {
        self.shadow_cache.push_shadow_image(shadow, image)
    }

    pub fn get_picture_image(&mut self, picture_id: u32) -> (r: Option<&P>)
        requires
            old(self).wf(),
        ensures
            final(self).image_cache@ == read_key(old(self).image_cache@, picture_id),
            final(self).shadow_cache@ == old(self).shadow_cache@,
            read_result(old(self).image_cache@, picture_id, r),
            final(self).wf(),
    {
        self.image_cache.get_picture_image(picture_id)
    }

    pub fn push_id_image(&mut self, picture_id: u32, image: P)
        requires
            old(self).wf(),
        ensures
            final(self).image_cache@ == stored(old(self).image_cache@, picture_id, image),
            final(self).shadow_cache@ == old(self).shadow_cache@,
            final(self).wf(),
    {
        self.image_cache.push_id_image(picture_id, image)
    }

    pub fn remove_picture_image(&mut self, picture_id: u32)
        requires
            old(self).wf(),
        ensures
            !has_key(final(self).image_cache@, picture_id),
            forall|i: int|
                0 <= i < old(self).image_cache@.len() && old(self).image_cache@[i].key
                    != picture_id ==> final(self).image_cache@.contains(
                    #[trigger] old(self).image_cache@[i],
                ),
            final(self).image_cache@.len() <= old(self).image_cache@.len(),
            final(self).shadow_cache@ == old(self).shadow_cache@,
            final(self).wf(),
    {
        self.image_cache.remove_picture_image(picture_id)
    }
}

/// What happens to a cache during a frame, between its start and its end.
pub enum FrameEvent<K, I> {
    /// The raster under the key is looked up.
    Read(K),
    /// A raster is stored under the key.
    Store(K, I),
}

pub open spec fn mentions<K, I>(event: FrameEvent<K, I>, key: K) -> bool {
    match event {
        FrameEvent::Read(k) => k == key,
        FrameEvent::Store(k, _) => k == key,
    }
}

pub open spec fn apply_event<K, I>(s: Seq<CachedImage<K, I>>, event: FrameEvent<K, I>) -> Seq<
    CachedImage<K, I>,
> {
    match event {
        FrameEvent::Read(k) => read_key(s, k),
        FrameEvent::Store(k, image) => stored(s, k, image),
    }
}

pub open spec fn apply_events<K, I>(s: Seq<CachedImage<K, I>>, events: Seq<FrameEvent<K, I>>) -> Seq<
    CachedImage<K, I>,
>
    decreases events.len(),
{
    if events.len() == 0 {
        s
    } else {
        apply_event(apply_events(s, events.drop_last()), events.last())
    }
}

/// One top-level composition: the frame begins, the events happen, the
/// frame ends.
pub open spec fn frame<K, I>(s: Seq<CachedImage<K, I>>, events: Seq<FrameEvent<K, I>>) -> Seq<
    CachedImage<K, I>,
> {
    swept(apply_events(marked_not_used(s), events))
}

/// The cache after the frames, one after the other.
pub open spec fn run_frames<K, I>(
    s: Seq<CachedImage<K, I>>,
    frames: Seq<Seq<FrameEvent<K, I>>>,
) -> Seq<CachedImage<K, I>>
    decreases frames.len(),
{
    if frames.len() == 0 {
        s
    } else {
        frame(run_frames(s, frames.drop_last()), frames.last())
    }
}

/// No entry under `key` has more than `c` frames left.
pub open spec fn countdown_at_most<K, I>(s: Seq<CachedImage<K, I>>, key: K, c: int) -> bool {
    forall|i: int| 0 <= i < s.len() && #[trigger] s[i].key == key ==> s[i].frames_to_purge <= c
}

/// Some entry under `key` has at least `c` frames left.
pub open spec fn countdown_at_least<K, I>(s: Seq<CachedImage<K, I>>, key: K, c: int) -> bool {
    exists|i: int| 0 <= i < s.len() && #[trigger] s[i].key == key && s[i].frames_to_purge >= c
}

proof fn lemma_events_keep_other_entries<K, I>(
    s: Seq<CachedImage<K, I>>,
    events: Seq<FrameEvent<K, I>>,
    key: K,
    c: int,
)
    requires
        forall|j: int| 0 <= j < events.len() ==> !mentions(#[trigger] events[j], key),
    ensures
        countdown_at_most(s, key, c) ==> countdown_at_most(apply_events(s, events), key, c),
        countdown_at_least(s, key, c) ==> countdown_at_least(apply_events(s, events), key, c),
    decreases events.len(),
{
    if events.len() > 0 {
        let prev = events.drop_last();
        assert forall|j: int| 0 <= j < prev.len() implies !mentions(#[trigger] prev[j], key) by {
            assert(prev[j] == events[j]);
        }
        lemma_events_keep_other_entries(s, prev, key, c);
        let t = apply_events(s, prev);
        let u = apply_events(s, events);
        assert(!mentions(events[events.len() - 1], key));
        if countdown_at_least(t, key, c) {
            let i = choose|i: int|
                0 <= i < t.len() && #[trigger] t[i].key == key && t[i].frames_to_purge >= c;
            assert(u[i] == t[i]);
        }
    }
}

proof fn lemma_frame_without_key<K, I>(
    s: Seq<CachedImage<K, I>>,
    events: Seq<FrameEvent<K, I>>,
    key: K,
    c: int,
)
    requires
        forall|j: int| 0 <= j < events.len() ==> !mentions(#[trigger] events[j], key),
    ensures
        countdown_at_most(s, key, c) && c >= 1 ==> countdown_at_most(
            frame(s, events),
            key,
            c - 1,
        ),
        countdown_at_least(s, key, c + 1) && c >= 1 ==> countdown_at_least(
            frame(s, events),
            key,
            c,
        ),
{
    let m = marked_not_used(s);
    let a = apply_events(m, events);
    if countdown_at_most(s, key, c) && c >= 1 {
        assert forall|i: int| 0 <= i < m.len() && #[trigger] m[i].key == key implies m[i].frames_to_purge <= c - 1 by {
            assert(m[i] == decremented(s[i]));
        }
        lemma_events_keep_other_entries(m, events, key, c - 1);
        lemma_swept_from(a);
        assert forall|i: int|
            0 <= i < swept(a).len() && #[trigger] swept(a)[i].key == key implies swept(
            a,
        )[i].frames_to_purge <= c - 1 by {
            assert(a.contains(swept(a)[i]));
        }
    }
    if countdown_at_least(s, key, c + 1) && c >= 1 {
        let i = choose|i: int|
            0 <= i < s.len() && #[trigger] s[i].key == key && s[i].frames_to_purge >= c + 1;
        assert(m[i].key == key);
        lemma_events_keep_other_entries(m, events, key, c);
        let n = choose|n: int|
            0 <= n < a.len() && #[trigger] a[n].key == key && a[n].frames_to_purge >= c;
        lemma_swept_from(a);
        assert(swept(a).contains(a[n]));
    }
}

proof fn lemma_frames_count_down<K, I>(
    s: Seq<CachedImage<K, I>>,
    frames: Seq<Seq<FrameEvent<K, I>>>,
    key: K,
)
    requires
        countdown_at_most(s, key, CACHED_SHADOW_UNUSED_FRAMES_LIMIT as int),
        frames.len() <= CACHED_SHADOW_UNUSED_FRAMES_LIMIT,
        forall|f: int, j: int|
            0 <= f < frames.len() && 0 <= j < frames[f].len() ==> !mentions(
                #[trigger] frames[f][j],
                key,
            ),
    ensures
        countdown_at_most(
            run_frames(s, frames),
            key,
            CACHED_SHADOW_UNUSED_FRAMES_LIMIT - frames.len(),
        ),
    decreases frames.len(),
{
    if frames.len() > 0 {
        let prev = frames.drop_last();
        assert forall|f: int, j: int|
            0 <= f < prev.len() && 0 <= j < prev[f].len() implies !mentions(
            #[trigger] prev[f][j],
            key,
        ) by {
            assert(prev[f] == frames[f]);
        }
        lemma_frames_count_down(s, prev, key);
        let last = frames.last();
        assert forall|j: int| 0 <= j < last.len() implies !mentions(#[trigger] last[j], key) by {
            assert(frames[frames.len() - 1][j] == last[j]);
        }
        lemma_frame_without_key(
            run_frames(s, prev),
            last,
            key,
            CACHED_SHADOW_UNUSED_FRAMES_LIMIT - prev.len(),
        );
    }
}

/// Eviction: an entry that no frame reads or stores, during as many frames
/// in a row as the limit, is gone from the cache after them.
pub proof fn lemma_unread_entry_evicted<K, I>(
    s: Seq<CachedImage<K, I>>,
    frames: Seq<Seq<FrameEvent<K, I>>>,
    key: K,
)
    requires
        forall|i: int|
            0 <= i < s.len() ==> #[trigger] s[i].frames_to_purge
                <= CACHED_SHADOW_UNUSED_FRAMES_LIMIT,
        frames.len() == CACHED_SHADOW_UNUSED_FRAMES_LIMIT,
        forall|f: int, j: int|
            0 <= f < frames.len() && 0 <= j < frames[f].len() ==> !mentions(
                #[trigger] frames[f][j],
                key,
            ),
    ensures
        !has_key(run_frames(s, frames), key),
{
    lemma_frames_count_down(s, frames, key);
    let prev = frames.drop_last();
    let a = apply_events(marked_not_used(run_frames(s, prev)), frames.last());
    lemma_swept_from(a);
}

proof fn lemma_events_reading_key<K, I>(
    s: Seq<CachedImage<K, I>>,
    events: Seq<FrameEvent<K, I>>,
    key: K,
)
    requires
        has_key(s, key),
    ensures
        has_key(apply_events(s, events), key),
        events.contains(FrameEvent::Read(key)) ==> countdown_at_least(
            apply_events(s, events),
            key,
            1,
        ),
    decreases events.len(),
{
    if events.len() > 0 {
        let prev = events.drop_last();
        lemma_events_reading_key(s, prev, key);
        let t = apply_events(s, prev);
        let u = apply_events(s, events);
        let last = events.last();
        let i = choose|i: int| 0 <= i < t.len() && t[i].key == key;
        assert(u[i].key == key);
        if events.contains(FrameEvent::Read(key)) {
            if last == FrameEvent::<K, I>::Read(key) {
                assert(u[i] == refreshed(t[i]));
            } else {
                let w = choose|w: int| 0 <= w < events.len() && events[w] == FrameEvent::<K, I>::Read(key);
                assert(prev[w] == events[w]);
                assert(prev.contains(FrameEvent::Read(key)));
                let n = choose|n: int|
                    0 <= n < t.len() && #[trigger] t[n].key == key && t[n].frames_to_purge >= 1;
                assert(u[n].key == key && u[n].frames_to_purge >= 1);
            }
        }
    }
}

proof fn lemma_frames_reading_key<K, I>(
    s: Seq<CachedImage<K, I>>,
    frames: Seq<Seq<FrameEvent<K, I>>>,
    key: K,
)
    requires
        has_key(s, key),
        forall|f: int| 0 <= f < frames.len() ==> (#[trigger] frames[f]).contains(
            FrameEvent::Read(key),
        ),
    ensures
        has_key(run_frames(s, frames), key),
    decreases frames.len(),
{
    if frames.len() > 0 {
        let prev = frames.drop_last();
        assert forall|f: int| 0 <= f < prev.len() implies (#[trigger] prev[f]).contains(
            FrameEvent::Read(key),
        ) by {
            assert(prev[f] == frames[f]);
        }
        lemma_frames_reading_key(s, prev, key);
        let t = run_frames(s, prev);
        let m = marked_not_used(t);
        let i = choose|i: int| 0 <= i < t.len() && t[i].key == key;
        assert(m[i].key == key);
        assert(frames[frames.len() - 1].contains(FrameEvent::Read(key)));
        lemma_events_reading_key(m, frames.last(), key);
        let a = apply_events(m, frames.last());
        let n = choose|n: int|
            0 <= n < a.len() && #[trigger] a[n].key == key && a[n].frames_to_purge >= 1;
        lemma_swept_from(a);
        assert(swept(a).contains(a[n]));
    }
}

/// An entry that every frame reads is never evicted.
pub proof fn lemma_read_entry_kept<K, I>(
    s: Seq<CachedImage<K, I>>,
    frames: Seq<Seq<FrameEvent<K, I>>>,
    key: K,
)
    requires
        has_key(s, key),
        forall|f: int| 0 <= f < frames.len() ==> (#[trigger] frames[f]).contains(
            FrameEvent::Read(key),
        ),
    ensures
        has_key(run_frames(s, frames), key),
{
    lemma_frames_reading_key(s, frames, key);
}

proof fn lemma_frames_keep_recent<K, I>(
    s: Seq<CachedImage<K, I>>,
    frames: Seq<Seq<FrameEvent<K, I>>>,
    key: K,
)
    requires
        countdown_at_least(s, key, CACHED_SHADOW_UNUSED_FRAMES_LIMIT as int),
        frames.len() < CACHED_SHADOW_UNUSED_FRAMES_LIMIT,
        forall|f: int, j: int|
            0 <= f < frames.len() && 0 <= j < frames[f].len() ==> !mentions(
                #[trigger] frames[f][j],
                key,
            ),
    ensures
        countdown_at_least(
            run_frames(s, frames),
            key,
            CACHED_SHADOW_UNUSED_FRAMES_LIMIT - frames.len(),
        ),
    decreases frames.len(),
{
    if frames.len() > 0 {
        let prev = frames.drop_last();
        assert forall|f: int, j: int|
            0 <= f < prev.len() && 0 <= j < prev[f].len() implies !mentions(
            #[trigger] prev[f][j],
            key,
        ) by {
            assert(prev[f] == frames[f]);
        }
        lemma_frames_keep_recent(s, prev, key);
        let last = frames.last();
        assert forall|j: int| 0 <= j < last.len() implies !mentions(#[trigger] last[j], key) by {
            assert(frames[frames.len() - 1][j] == last[j]);
        }
        lemma_frame_without_key(
            run_frames(s, prev),
            last,
            key,
            CACHED_SHADOW_UNUSED_FRAMES_LIMIT - frames.len(),
        );
    }
}

/// A raster stored during a frame stays cached for as many following frames
/// as the limit allows, less one, even if none of them reads it: within that
/// window it need not be rasterized again.
pub proof fn lemma_stored_entry_kept<K, I>(
    s: Seq<CachedImage<K, I>>,
    key: K,
    image: I,
    rest: Seq<FrameEvent<K, I>>,
    frames: Seq<Seq<FrameEvent<K, I>>>,
)
    requires
        forall|j: int| 0 <= j < rest.len() ==> !mentions(#[trigger] rest[j], key),
        frames.len() < CACHED_SHADOW_UNUSED_FRAMES_LIMIT,
        forall|f: int, j: int|
            0 <= f < frames.len() && 0 <= j < frames[f].len() ==> !mentions(
                #[trigger] frames[f][j],
                key,
            ),
    ensures
        has_key(run_frames(swept(apply_events(stored(s, key, image), rest)), frames), key),
{
    let t = stored(s, key, image);
    let limit = CACHED_SHADOW_UNUSED_FRAMES_LIMIT as int;
    if has_key(s, key) {
        let i = choose|i: int| 0 <= i < s.len() && s[i].key == key;
        assert(t[i] == fresh(key, image));
        assert(t[i].key == key && t[i].frames_to_purge >= limit);
    } else {
        assert(t[s.len() as int] == fresh(key, image));
        assert(t[s.len() as int].key == key && t[s.len() as int].frames_to_purge >= limit);
    }
    assert(countdown_at_least(t, key, limit));
    lemma_events_keep_other_entries(t, rest, key, limit);
    let a = apply_events(t, rest);
    let n = choose|n: int|
        0 <= n < a.len() && #[trigger] a[n].key == key && a[n].frames_to_purge >= limit;
    lemma_swept_from(a);
    let w = choose|w: int| 0 <= w < swept(a).len() && swept(a)[w] == a[n];
    assert(swept(a)[w].key == key);
    lemma_frames_keep_recent(swept(a), frames, key);
}

/// Every entry under `key` holds `image`.
pub open spec fn holds_image<K, I>(s: Seq<CachedImage<K, I>>, key: K, image: I) -> bool {
    forall|i: int| 0 <= i < s.len() && #[trigger] s[i].key == key ==> s[i].image == image
}

/// Does the event store a raster under `key`?
pub open spec fn stores_key<K, I>(event: FrameEvent<K, I>, key: K) -> bool {
    match event {
        FrameEvent::Read(_) => false,
        FrameEvent::Store(k, _) => k == key,
    }
}

proof fn lemma_events_keep_image<K, I>(
    s: Seq<CachedImage<K, I>>,
    events: Seq<FrameEvent<K, I>>,
    key: K,
    image: I,
)
    requires
        holds_image(s, key, image),
        forall|j: int| 0 <= j < events.len() ==> !stores_key(#[trigger] events[j], key),
    ensures
        holds_image(apply_events(s, events), key, image),
    decreases events.len(),
{
    if events.len() > 0 {
        let prev = events.drop_last();
        assert forall|j: int| 0 <= j < prev.len() implies !stores_key(#[trigger] prev[j], key) by {
            assert(prev[j] == events[j]);
        }
        lemma_events_keep_image(s, prev, key, image);
        let t = apply_events(s, prev);
        let u = apply_events(s, events);
        assert(!stores_key(events[events.len() - 1], key));
        assert forall|i: int| 0 <= i < u.len() && #[trigger] u[i].key == key implies u[i].image
            == image by {
            if i < t.len() {
                assert(u[i].image == t[i].image);
            }
        }
    }
}

proof fn lemma_frames_keep_image<K, I>(
    s: Seq<CachedImage<K, I>>,
    frames: Seq<Seq<FrameEvent<K, I>>>,
    key: K,
    image: I,
)
    requires
        holds_image(s, key, image),
        forall|f: int, j: int|
            0 <= f < frames.len() && 0 <= j < frames[f].len() ==> !stores_key(
                #[trigger] frames[f][j],
                key,
            ),
    ensures
        holds_image(run_frames(s, frames), key, image),
    decreases frames.len(),
{
    if frames.len() > 0 {
        let prev = frames.drop_last();
        assert forall|f: int, j: int|
            0 <= f < prev.len() && 0 <= j < prev[f].len() implies !stores_key(
            #[trigger] prev[f][j],
            key,
        ) by {
            assert(prev[f] == frames[f]);
        }
        lemma_frames_keep_image(s, prev, key, image);
        let t = run_frames(s, prev);
        let m = marked_not_used(t);
        assert forall|i: int| 0 <= i < m.len() && #[trigger] m[i].key == key implies m[i].image
            == image by {
            assert(m[i] == decremented(t[i]));
        }
        let last = frames.last();
        assert forall|j: int| 0 <= j < last.len() implies !stores_key(#[trigger] last[j], key) by {
            assert(frames[frames.len() - 1][j] == last[j]);
        }
        lemma_events_keep_image(m, last, key, image);
        let a = apply_events(m, last);
        lemma_swept_from(a);
        assert forall|i: int| 0 <= i < swept(a).len() && #[trigger] swept(a)[i].key == key implies swept(
            a,
        )[i].image == image by {
            assert(a.contains(swept(a)[i]));
        }
    }
}

/// After a frame that stores `(image, scale)` under the picture's id, the
/// cache holds that raster, and only that one, under the id.
proof fn lemma_stored_raster<I>(
    s: Seq<CachedImage<u32, (I, ScaleKey)>>,
    id: u32,
    image: I,
    scale: ScaleKey,
    rest: Seq<FrameEvent<u32, (I, ScaleKey)>>,
)
    requires
        forall|j: int| 0 <= j < rest.len() ==> !mentions(#[trigger] rest[j], id),
    ensures
        has_key(swept(apply_events(stored(s, id, (image, scale)), rest)), id),
        holds_image(swept(apply_events(stored(s, id, (image, scale)), rest)), id, (image, scale)),
{
    let v = (image, scale);
    let none = Seq::<Seq<FrameEvent<u32, (I, ScaleKey)>>>::empty();
    lemma_stored_entry_kept(s, id, v, rest, none);
    let t = stored(s, id, v);
    assert forall|i: int| 0 <= i < t.len() && #[trigger] t[i].key == id implies t[i].image == v by {
        if !has_key(s, id) && i < s.len() {
            assert(t[i] == s[i]);
        }
    }
    assert forall|j: int| 0 <= j < rest.len() implies !stores_key(#[trigger] rest[j], id) by {
        assert(!mentions(rest[j], id));
    }
    lemma_events_keep_image(t, rest, id, v);
    let a = apply_events(t, rest);
    lemma_swept_from(a);
    assert forall|i: int| 0 <= i < swept(a).len() && #[trigger] swept(a)[i].key == id implies swept(
        a,
    )[i].image == v by {
        assert(a.contains(swept(a)[i]));
    }
}

/// A cache that holds the picture's raster at `scale` has it blitted, once
/// the next frame began.
proof fn lemma_cached_at_scale_is_blitted<I>(
    r: Seq<CachedImage<u32, (I, ScaleKey)>>,
    layer: PictureLayer,
    image: I,
    scale: ScaleKey,
)
    requires
        has_key(r, layer.picture_id),
        holds_image(r, layer.picture_id, (image, scale)),
    ensures
        picture_step_decision(marked_not_used(r), layer, scale).action == PictureAction::DrawCached,
{
    let id = layer.picture_id;
    let m = marked_not_used(r);
    let i = choose|i: int| 0 <= i < r.len() && r[i].key == id;
    assert(m[i] == decremented(r[i]));
    assert(has_key(m, id));
    let c = choose|c: int| 0 <= c < m.len() && m[c].key == id;
    assert(m[c] == decremented(r[c]));
}

/// A picture rasterized at one scale and stored in the cache is blitted from
/// the cache, not rasterized again, when it is composed at that scale in any
/// of the frames of the eviction window that follow, even if none of them
/// reads it. Where the picture lies does not enter the decision: moving it
/// keeps the raster.
pub proof fn lemma_same_scale_reuses_raster<I>(
    s: Seq<CachedImage<u32, (I, ScaleKey)>>,
    layer: PictureLayer,
    image: I,
    scale: ScaleKey,
    rest: Seq<FrameEvent<u32, (I, ScaleKey)>>,
    frames: Seq<Seq<FrameEvent<u32, (I, ScaleKey)>>>,
)
    requires
        forall|j: int| 0 <= j < rest.len() ==> !mentions(#[trigger] rest[j], layer.picture_id),
        frames.len() < CACHED_SHADOW_UNUSED_FRAMES_LIMIT,
        forall|f: int, j: int|
            0 <= f < frames.len() && 0 <= j < frames[f].len() ==> !mentions(
                #[trigger] frames[f][j],
                layer.picture_id,
            ),
    ensures
        picture_step_decision(
            marked_not_used(
                run_frames(
                    swept(apply_events(stored(s, layer.picture_id, (image, scale)), rest)),
                    frames,
                ),
            ),
            layer,
            scale,
        ).action == PictureAction::DrawCached,
{
    let id = layer.picture_id;
    let v = (image, scale);
    lemma_stored_entry_kept(s, id, v, rest, frames);
    lemma_stored_raster(s, id, image, scale, rest);
    let t = swept(apply_events(stored(s, id, v), rest));
    assert forall|f: int, j: int|
        0 <= f < frames.len() && 0 <= j < frames[f].len() implies !stores_key(
        #[trigger] frames[f][j],
        id,
    ) by {
        assert(!mentions(frames[f][j], id));
    }
    lemma_frames_keep_image(t, frames, id, v);
    lemma_cached_at_scale_is_blitted(run_frames(t, frames), layer, image, scale);
}

/// A picture rasterized at one scale and stored, and then composed at that
/// scale in every later frame, is blitted from the cache in each of those
/// frames: it is rasterized once.
pub proof fn lemma_picture_reused_every_frame<I>(
    s: Seq<CachedImage<u32, (I, ScaleKey)>>,
    layer: PictureLayer,
    image: I,
    scale: ScaleKey,
    rest: Seq<FrameEvent<u32, (I, ScaleKey)>>,
    frames: Seq<Seq<FrameEvent<u32, (I, ScaleKey)>>>,
)
    requires
        forall|j: int| 0 <= j < rest.len() ==> !mentions(#[trigger] rest[j], layer.picture_id),
        forall|f: int| 0 <= f < frames.len() ==> (#[trigger] frames[f]).contains(
            FrameEvent::Read(layer.picture_id),
        ),
        forall|f: int, j: int|
            0 <= f < frames.len() && 0 <= j < frames[f].len() ==> !stores_key(
                #[trigger] frames[f][j],
                layer.picture_id,
            ),
    ensures
        forall|k: int|
            0 <= k <= frames.len() ==> #[trigger] picture_step_decision(
                marked_not_used(
                    run_frames(
                        swept(apply_events(stored(s, layer.picture_id, (image, scale)), rest)),
                        frames.take(k),
                    ),
                ),
                layer,
                scale,
            ).action == PictureAction::DrawCached,
{
    let id = layer.picture_id;
    let v = (image, scale);
    lemma_stored_raster(s, id, image, scale, rest);
    let t = swept(apply_events(stored(s, id, v), rest));
    assert forall|k: int| 0 <= k <= frames.len() implies #[trigger] picture_step_decision(
        marked_not_used(run_frames(t, frames.take(k))),
        layer,
        scale,
    ).action == PictureAction::DrawCached by {
        let p = frames.take(k);
        assert forall|f: int| 0 <= f < p.len() implies (#[trigger] p[f]).contains(
            FrameEvent::Read(id),
        ) by {
            assert(p[f] == frames[f]);
        }
        assert forall|f: int, j: int|
            0 <= f < p.len() && 0 <= j < p[f].len() implies !stores_key(#[trigger] p[f][j], id) by {
            assert(p[f] == frames[f]);
        }
        lemma_read_entry_kept(t, p, id);
        lemma_frames_keep_image(t, p, id, v);
        lemma_cached_at_scale_is_blitted(run_frames(t, p), layer, image, scale);
    }
}

/// Shadows built apart with the same parameters share one cached raster: a
/// shadow rasterized and stored during a frame is blitted, not rasterized
/// again, for an equal shadow in any of the frames of the eviction window
/// that follow.
pub proof fn lemma_equal_shadows_share_raster<I>(
    s: Seq<CachedImage<Shadow, I>>,
    a: Shadow,
    b: Shadow,
    image: I,
    rest: Seq<FrameEvent<Shadow, I>>,
    frames: Seq<Seq<FrameEvent<Shadow, I>>>,
)
    requires
        a.wf(),
        b.wf(),
        a.color == b.color,
        a.radius == b.radius,
        a.offset == b.offset,
        a.geometry == b.geometry,
        forall|j: int| 0 <= j < rest.len() ==> !mentions(#[trigger] rest[j], a),
        frames.len() < CACHED_SHADOW_UNUSED_FRAMES_LIMIT,
        forall|f: int, j: int|
            0 <= f < frames.len() && 0 <= j < frames[f].len() ==> !mentions(
                #[trigger] frames[f][j],
                a,
            ),
    ensures
        shadow_step_action(
            marked_not_used(run_frames(swept(apply_events(stored(s, a, image), rest)), frames)),
            b,
        ) == ShadowAction::DrawCached,
{
    lemma_equal_parameters_equal_hash(a, b);
    lemma_stored_entry_kept(s, a, image, rest, frames);
    let r = run_frames(swept(apply_events(stored(s, a, image), rest)), frames);
    let m = marked_not_used(r);
    let i = choose|i: int| 0 <= i < r.len() && r[i].key == a;
    assert(m[i] == decremented(r[i]));
    assert(has_key(m, b));
}

/// The swept entries are entries of the cache, all of them still in use;
/// every entry in use stays.
proof fn lemma_swept_from<K, I>(s: Seq<CachedImage<K, I>>)
    ensures
        forall|i: int|
            0 <= i < swept(s).len() ==> #[trigger] swept(s)[i].frames_to_purge > 0 && s.contains(
                swept(s)[i],
            ),
        forall|i: int|
            0 <= i < s.len() && #[trigger] s[i].frames_to_purge > 0 ==> swept(s).contains(s[i]),
        swept(s).len() <= s.len(),
{
    assert forall|i: int| 0 <= i < swept(s).len() implies #[trigger] swept(
        s,
    )[i].frames_to_purge > 0 && s.contains(swept(s)[i]) by {
        s.lemma_filter_pred(in_use(), i);
        assert(swept(s).contains(swept(s)[i]));
        s.lemma_filter_contains_rev(in_use(), swept(s)[i]);
    }
    assert forall|i: int| 0 <= i < s.len() && #[trigger] s[i].frames_to_purge > 0 implies swept(
        s,
    ).contains(s[i]) by {
        s.lemma_filter_contains(in_use(), i);
    }
    s.lemma_filter_len(in_use());
}

} // verus!
