use iced_color_picker::cache::RasterCache;
use iced_color_picker::geometry::Size;

fn size(width: u32, height: u32) -> Size {
    Size { width, height }
}

#[test]
fn a_new_cache_is_empty() {
    let cache: RasterCache<u32> = RasterCache::new();
    assert!(!cache.is_valid(size(0, 0)));
    assert!(!cache.is_valid(size(10, 10)));
}

#[test]
fn draw_generates_for_the_requested_size() {
    let mut cache = RasterCache::new();
    assert_eq!(*cache.draw(size(3, 4), |s| s.width * s.height), 12);
    assert!(cache.is_valid(size(3, 4)));
    assert!(!cache.is_valid(size(4, 3)));
}

#[test]
fn draw_reuses_what_it_holds() {
    let mut cache = RasterCache::new();
    assert_eq!(*cache.draw(size(3, 4), |_| 1), 1);
    assert_eq!(*cache.draw(size(3, 4), |_| 2), 1);
    assert_eq!(*cache.draw(size(3, 4), |_| panic!("generated although the cache was valid")), 1);
}

#[test]
fn draw_generates_anew_for_another_size() {
    let mut cache = RasterCache::new();
    assert_eq!(*cache.draw(size(3, 4), |_| 1), 1);
    assert_eq!(*cache.draw(size(3, 5), |_| 2), 2);
    assert!(!cache.is_valid(size(3, 4)));
    assert_eq!(*cache.draw(size(3, 4), |_| 3), 3);
}

#[test]
fn clear_forces_the_next_draw_to_generate() {
    let mut cache = RasterCache::new();
    assert_eq!(*cache.draw(size(3, 4), |_| 1), 1);
    cache.clear();
    assert!(!cache.is_valid(size(3, 4)));
    assert_eq!(*cache.draw(size(3, 4), |_| 2), 2);
}

#[test]
fn clearing_an_empty_cache_keeps_it_empty() {
    let mut cache: RasterCache<u8> = RasterCache::new();
    cache.clear();
    assert!(!cache.is_valid(size(1, 1)));
}
