use image::DynamicImage;
use preferz::images::ImageLoader;

#[test]
fn cache_remembers_replaces_and_clears() {
    let mut loader = ImageLoader::new();
    assert_eq!(loader.cache_size(), 0);
    assert!(loader.cached(b"/a.png").is_none());
    let a = DynamicImage::new_rgb8(2, 3);
    let b = DynamicImage::new_luma8(4, 1);
    loader.remember(b"/a.png".to_vec(), a.clone());
    loader.remember(b"/b.png".to_vec(), b.clone());
    assert_eq!(loader.cache_size(), 2);
    assert_eq!(loader.cached(b"/a.png"), Some(a.clone()));
    assert_eq!(loader.cached(b"/b.png"), Some(b.clone()));
    // a second image under the same path replaces the first
    loader.remember(b"/a.png".to_vec(), b.clone());
    assert_eq!(loader.cache_size(), 2);
    assert_eq!(loader.cached(b"/a.png"), Some(b));
    loader.clear_cache();
    assert_eq!(loader.cache_size(), 0);
    assert!(loader.cached(b"/b.png").is_none());
}
