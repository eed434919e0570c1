use voxel_tracer::color::Color;
use voxel_tracer::fixed::SCALE;
use voxel_tracer::framebuffer::{ray_count, render_scale, Framebuffer};
use voxel_tracer::texture::{TextureError, TextureManager};

fn two_by_two() -> TextureManager {
    let mut tm = TextureManager::new();
    // top row: 10, 20; bottom row: 30, 40
    let data = vec![10, 11, 12, 13, 20, 21, 22, 23, 30, 31, 32, 33, 40, 41, 42, 43];
    assert_eq!(tm.load("t.png", 2, 2, data), Ok(()));
    tm
}

#[test]
fn sample_flips_the_vertical_coordinate() {
    let tm = two_by_two();
    assert_eq!(tm.sample("t.png", 250_000, 250_000), Some(Color::new(30, 31, 32, 33)));
    assert_eq!(tm.sample("t.png", 750_000, 250_000), Some(Color::new(40, 41, 42, 43)));
    assert_eq!(tm.sample("t.png", 250_000, 750_000), Some(Color::new(10, 11, 12, 13)));
    assert_eq!(tm.sample("t.png", 750_000, 750_000), Some(Color::new(20, 21, 22, 23)));
}

#[test]
fn sample_tiles() {
    let tm = two_by_two();
    assert_eq!(tm.sample("t.png", 250_000 + 3 * SCALE, 750_000 - 2 * SCALE), Some(Color::new(10, 11, 12, 13)));
    assert_eq!(tm.sample("t.png", -250_000, -250_000), Some(Color::new(20, 21, 22, 23)));
    // at a whole number the vertical coordinate wraps to the top row
    assert_eq!(tm.sample("t.png", 0, 0), Some(Color::new(10, 11, 12, 13)));
    assert_eq!(tm.sample("t.png", SCALE, -SCALE), Some(Color::new(10, 11, 12, 13)));
}

#[test]
fn missing_texture_is_none() {
    let tm = two_by_two();
    assert_eq!(tm.sample("other.png", 0, 0), None);
    assert_eq!(TextureManager::new().sample("t.png", 0, 0), None);
}

#[test]
fn empty_image_has_no_colour() {
    let mut tm = TextureManager::new();
    assert_eq!(tm.load("e.png", 0, 5, Vec::new()), Ok(()));
    assert_eq!(tm.sample("e.png", 0, 0), None);
}

#[test]
fn short_buffer_is_refused() {
    let mut tm = two_by_two();
    assert_eq!(tm.load("t.png", 2, 2, vec![0; 15]), Err(TextureError::BufferTooSmall));
    assert_eq!(tm.load("u.png", u32::MAX, u32::MAX, vec![0; 16]), Err(TextureError::BufferTooSmall));
    assert_eq!(tm.load("u.png", u32::MAX, 1, vec![0; 16]), Err(TextureError::BufferTooSmall));
    // nothing changed
    assert_eq!(tm.sample("t.png", 250_000, 250_000), Some(Color::new(30, 31, 32, 33)));
    assert_eq!(tm.sample("u.png", 0, 0), None);
}

#[test]
fn loading_again_replaces() {
    let mut tm = two_by_two();
    assert_eq!(tm.load("t.png", 1, 1, vec![9, 9, 9, 9, 1, 1]), Ok(()));
    assert_eq!(tm.sample("t.png", 250_000, 250_000), Some(Color::new(9, 9, 9, 9)));
    assert_eq!(tm.load("u.png", 1, 1, vec![7, 7, 7, 7]), Ok(()));
    assert_eq!(tm.sample("u.png", 0, 0), Some(Color::new(7, 7, 7, 7)));
    assert_eq!(tm.sample("t.png", 0, 0), Some(Color::new(9, 9, 9, 9)));
}

#[test]
fn framebuffer_draws_inside_only() {
    let mut fb = Framebuffer::new(3, 2, Color::new(0, 0, 0, 255));
    assert_eq!((fb.width(), fb.height()), (3, 2));
    assert_eq!(fb.image().len(), 6);
    fb.set_pixel(2, 1);
    assert_eq!(fb.pixel(2, 1), Color::new(255, 255, 255, 255));
    assert_eq!(fb.pixel(1, 1), Color::new(0, 0, 0, 255));
    fb.set_current_color(Color::new(1, 2, 3, 4));
    fb.set_pixel(0, 0);
    fb.set_pixel(3, 0);
    fb.set_pixel(0, 2);
    assert_eq!(fb.pixel(0, 0), Color::new(1, 2, 3, 4));
    assert_eq!(fb.image()[5], Color::new(255, 255, 255, 255));
    assert_eq!(fb.image()[3], Color::new(0, 0, 0, 255));
    fb.clear(Color::new(5, 5, 5, 5));
    assert!(fb.image().iter().all(|c| *c == Color::new(5, 5, 5, 5)));
    fb.set_pixel(1, 0);
    assert_eq!(fb.pixel(1, 0), Color::new(1, 2, 3, 4));
}

#[test]
fn render_scale_grows_with_the_buffer() {
    assert_eq!(render_scale(900, 900), 2);
    assert_eq!(render_scale(1200, 1200), 2);
    assert_eq!(render_scale(1201, 100), 3);
    assert_eq!(render_scale(100, 1201), 3);
    assert_eq!(ray_count(900, 2), 450);
    assert_eq!(ray_count(1, 2), 1);
    assert_eq!(ray_count(0, 3), 1);
}
