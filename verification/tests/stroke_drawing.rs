use snaprust::bitmap::Bitmap;
use snaprust::tool_utils::{draw_line, get_line_points};

const RED: [u8; 4] = [200, 10, 20, 255];

fn blank(width: u32, height: u32) -> Bitmap {
    Bitmap::new(width, height, vec![0; (width * height * 4) as usize]).unwrap()
}

#[test]
fn stroke_overwrites_the_line_with_the_colour() {
    let mut img = blank(20, 20);
    draw_line(&mut img, (2, 10), (17, 10), 1, RED);
    for (x, y) in get_line_points(2, 10, 17, 10) {
        assert_eq!(img.get_pixel(x as u32, y as u32), Some(RED));
    }
    assert_eq!((img.width(), img.height()), (20, 20));
}

#[test]
fn stroke_leaves_far_pixels_alone() {
    let mut img = blank(20, 20);
    draw_line(&mut img, (2, 10), (17, 10), 1, RED);
    assert_eq!(img.get_pixel(0, 0), Some([0, 0, 0, 0]));
    assert_eq!(img.get_pixel(10, 2), Some([0, 0, 0, 0]));
    assert_eq!(img.get_pixel(19, 19), Some([0, 0, 0, 0]));
}

#[test]
fn every_pixel_is_untouched_or_the_colour() {
    let mut img = blank(32, 24);
    draw_line(&mut img, (-5, 3), (40, 20), 3, RED);
    for y in 0..24 {
        for x in 0..32 {
            let p = img.get_pixel(x, y).unwrap();
            assert!(p == [0, 0, 0, 0] || p == RED);
        }
    }
}

#[test]
fn stamp_covers_the_disc_around_a_point() {
    let mut img = blank(11, 11);
    draw_line(&mut img, (5, 5), (5, 5), 2, RED);
    assert_eq!(img.get_pixel(5, 5), Some(RED));
    assert_eq!(img.get_pixel(3, 5), Some(RED));
    assert_eq!(img.get_pixel(7, 5), Some(RED));
    assert_eq!(img.get_pixel(5, 3), Some(RED));
    assert_eq!(img.get_pixel(5, 7), Some(RED));
    assert_eq!(img.get_pixel(8, 5), Some([0, 0, 0, 0]));
    assert_eq!(img.get_pixel(0, 0), Some([0, 0, 0, 0]));
}

#[test]
fn repeated_stroke_changes_nothing_more() {
    let mut once = blank(16, 16);
    draw_line(&mut once, (1, 1), (14, 9), 2, RED);
    let mut twice = once.clone();
    draw_line(&mut twice, (1, 1), (14, 9), 2, RED);
    assert_eq!(once.as_bytes(), twice.as_bytes());
}

#[test]
fn stroke_outside_the_bitmap_draws_nothing() {
    let mut img = blank(8, 8);
    draw_line(&mut img, (100, 100), (120, 100), 3, RED);
    assert!(img.as_bytes().iter().all(|b| *b == 0));
}

#[test]
fn stroke_on_empty_bitmap_is_harmless() {
    let mut img = blank(0, 0);
    draw_line(&mut img, (0, 0), (3, 3), 1, RED);
    assert!(img.as_bytes().is_empty());
}

#[test]
fn stroke_is_what_the_rasteriser_draws_point_by_point() {
    let mut ours = blank(24, 24);
    draw_line(&mut ours, (3, 4), (20, 15), 2, RED);
    let mut reference = image::RgbaImage::new(24, 24);
    for p in get_line_points(3, 4, 20, 15) {
        imageproc::drawing::draw_filled_circle_mut(&mut reference, p, 2, image::Rgba(RED));
    }
    assert_eq!(ours.as_bytes(), reference.as_raw());
}
