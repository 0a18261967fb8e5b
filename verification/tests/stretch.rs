use idlescreen::stretch::{upscale_stretch, upscale_stretch_into, StretchCache};

#[test]
fn upscale_stretch_2x_identity_pattern() {
    let src = vec![0u8; 2 * 2 * 4];
    let mut dst = vec![0u8; 4 * 4 * 4];
    let mut cache = StretchCache::new();
    upscale_stretch_into(&mut dst, &src, 2, 2, 4, 4, &mut cache);
    assert_eq!(dst.len(), 4 * 4 * 4);
}

#[test]
fn stretch_cache_rebuilds_on_resize() {
    let mut cache = StretchCache::new();
    cache.ensure(10, 20);
    assert_eq!(cache.src_w, 10);
    assert_eq!(cache.dst_w, 20);
    cache.ensure(20, 40);
    assert_eq!(cache.src_w, 20);
    assert_eq!(cache.dst_w, 40);
}

#[test]
fn stretch_cache_reuses_on_same_dims() {
    let mut cache = StretchCache::new();
    cache.ensure(10, 20);
    let len_after_first = cache.x_map.len();
    cache.ensure(10, 20);
    assert_eq!(cache.x_map.len(), len_after_first);
}

#[test]
fn upscale_stretch_handles_zero_dim() {
    let src = vec![0u8; 4];
    let mut dst = vec![0u8; 16];
    let mut cache = StretchCache::new();
    upscale_stretch_into(&mut dst, &src, 0, 0, 2, 2, &mut cache);
    assert_eq!(dst, vec![0u8; 16]);
}

#[test]
fn upscale_stretch_same_size_copies() {
    let src = vec![1u8, 2, 3, 4, 5, 6, 7, 8];
    let mut dst = vec![0u8; 8];
    let mut cache = StretchCache::new();
    upscale_stretch_into(&mut dst, &src, 2, 1, 2, 1, &mut cache);
    assert_eq!(dst, src);
}

#[test]
fn upscale_stretch_allocator_produces_correct_size() {
    let src = vec![0u8; 2 * 2 * 4];
    let out = upscale_stretch(&src, 2, 2, 4, 4);
    assert_eq!(out.len(), 4 * 4 * 4);
}

#[test]
fn stretch_doubles_each_pixel() {
    // 2x1 source: red, blue; stretched to 4x2.
    let src = vec![255u8, 0, 0, 255, 0, 0, 255, 255];
    let out = upscale_stretch(&src, 2, 1, 4, 2);
    let red = [255u8, 0, 0, 255];
    let blue = [0u8, 0, 255, 255];
    for row in 0..2 {
        for col in 0..4 {
            let px = &out[(row * 4 + col) * 4..(row * 4 + col) * 4 + 4];
            if col < 2 {
                assert_eq!(px, &red);
            } else {
                assert_eq!(px, &blue);
            }
        }
    }
}

#[test]
fn stretch_cache_maps_columns_by_floor_ratio() {
    let mut cache = StretchCache::new();
    cache.ensure(3, 6);
    assert_eq!(cache.x_map, vec![0, 0, 1, 1, 2, 2]);
}

#[test]
fn short_destination_is_left_untouched() {
    let src = vec![7u8; 16];
    let mut dst = vec![1u8; 8];
    let mut cache = StretchCache::new();
    upscale_stretch_into(&mut dst, &src, 2, 2, 4, 4, &mut cache);
    assert_eq!(dst, vec![1u8; 8]);
}
