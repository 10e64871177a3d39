use celesta::texture_cache::TextureCache;

/// Draws a frame using `keys`: reuses a cached texture or "uploads" a new
/// one (numbered by `uploads`), as the renderer does.
fn frame(cache: &mut TextureCache<u32>, fonts: usize, keys: &[&str], uploads: &mut u32) -> Vec<u32> {
    cache.begin_frame(fonts);
    let mut drawn = Vec::new();
    for key in keys {
        if cache.mark_used(key) {
            drawn.push(*cache.get(key).unwrap());
        } else {
            *uploads += 1;
            cache.insert(key.to_string(), *uploads);
            drawn.push(*uploads);
        }
    }
    cache.end_frame();
    drawn
}

#[test]
fn texture_cache_reuses_unchanged_textures_and_evicts_unused_ones() {
    let mut cache = TextureCache::new();
    let mut uploads = 0;
    assert_eq!(frame(&mut cache, 0, &["rect:red", "rect:blue"], &mut uploads), vec![1, 2]);
    assert_eq!(cache.len(), 2);
    // Another fill is another texture; the one no longer used is dropped.
    assert_eq!(frame(&mut cache, 0, &["rect:red", "rect:green"], &mut uploads), vec![1, 3]);
    assert_eq!(cache.len(), 2);
    assert_eq!(cache.get("rect:blue"), None);
    // The same frame again uploads nothing.
    assert_eq!(frame(&mut cache, 0, &["rect:red", "rect:green"], &mut uploads), vec![1, 3]);
    assert_eq!(uploads, 3);
    // An empty frame empties the cache.
    assert_eq!(frame(&mut cache, 0, &[], &mut uploads), Vec::<u32>::new());
    assert_eq!(cache.len(), 0);
}

#[test]
fn text_textures_are_redrawn_when_the_fonts_change() {
    let mut cache = TextureCache::new();
    let mut uploads = 0;
    let keys = ["text\0Hello", "image\0logo"];
    assert_eq!(frame(&mut cache, 1, &keys, &mut uploads), vec![1, 2]);
    assert_eq!(frame(&mut cache, 1, &keys, &mut uploads), vec![1, 2]);
    assert_eq!(frame(&mut cache, 2, &keys, &mut uploads), vec![3, 2]);
    assert_eq!(cache.get("text\0Hello"), Some(&3));
}
