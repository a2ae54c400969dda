use musicpi_display::bitmap::Bitmap;
use musicpi_display::geom::{Rect, Vec2};

fn v(x: i32, y: i32) -> Vec2 {
    Vec2::new(x, y)
}

#[test]
fn mod_derasterize_pixels() {
    let mut surface = Bitmap::new();
    surface.fill_rect(Rect::new(4, 4, 2, 2));
    let pixels = surface.derasterize_pixels();
    assert_eq!(vec![v(4, 4), v(5, 4), v(4, 5), v(5, 5)], pixels);
}

#[test]
fn tests_derasterize_pixels() {
    let mut surface = Bitmap::new();
    surface.fill_rect(Rect::new(4, 4, 2, 2));
    let pixels = surface.derasterize_pixels();
    assert_eq!(vec![v(4, 4), v(5, 4), v(4, 5), v(5, 5)], pixels);
}

#[test]
fn filled_rect_roundtrip_is_exact_and_ordered() {
    let mut surface = Bitmap::new();
    surface.fill_rect(Rect::new(10, 3, 3, 2));
    let pixels = surface.derasterize_pixels();
    assert_eq!(
        vec![v(10, 3), v(11, 3), v(12, 3), v(10, 4), v(11, 4), v(12, 4)],
        pixels
    );
}

#[test]
fn empty_surface_derasterizes_to_nothing() {
    let surface = Bitmap::new();
    assert_eq!(Vec::<Vec2>::new(), surface.derasterize_pixels());
}

#[test]
fn draw_points_clips_off_grid_points() {
    let mut surface = Bitmap::new();
    surface.draw_points(&vec![v(0, 0), v(-1, -1), v(31, 15), v(32, 0), v(0, 16)]);
    let pixels = surface.derasterize_pixels();
    assert_eq!(vec![v(0, 0), v(31, 15)], pixels);
}

#[test]
fn clear_switches_everything_off() {
    let mut surface = Bitmap::new();
    surface.fill_rect(Rect::new(0, 0, 32, 16));
    assert!(surface.get(17, 9));
    surface.clear();
    assert!(surface.derasterize_pixels().is_empty());
}

#[test]
fn copy_from_duplicates_the_source() {
    let mut a = Bitmap::new();
    a.fill_rect(Rect::new(1, 2, 3, 4));
    let mut b = Bitmap::new();
    b.fill_rect(Rect::new(20, 0, 1, 1));
    b.copy_from(&a);
    assert_eq!(a.derasterize_pixels(), b.derasterize_pixels());
}
