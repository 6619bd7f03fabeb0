use snaprust::bitmap::Bitmap;

/// A bitmap whose pixel at `(x, y)` is `[x, y, x + y, 255]` (mod 256).
fn gradient(width: u32, height: u32) -> Bitmap {
    let mut data = Vec::new();
    for y in 0..height {
        for x in 0..width {
            data.push(x as u8);
            data.push(y as u8);
            data.push((x + y) as u8);
            data.push(255);
        }
    }
    Bitmap::new(width, height, data).unwrap()
}

#[test]
fn new_accepts_exact_buffer() {
    let b = Bitmap::new(2, 3, vec![0; 24]).unwrap();
    assert_eq!(b.width(), 2);
    assert_eq!(b.height(), 3);
    assert_eq!(b.as_bytes().len(), 24);
}

#[test]
fn new_rejects_short_and_long_buffers() {
    assert!(Bitmap::new(2, 3, vec![0; 23]).is_none());
    assert!(Bitmap::new(2, 3, vec![0; 25]).is_none());
    assert!(Bitmap::new(1, 1, vec![]).is_none());
}

#[test]
fn new_accepts_empty_bitmap() {
    let b = Bitmap::new(0, 5, vec![]).unwrap();
    assert_eq!((b.width(), b.height()), (0, 5));
    assert!(Bitmap::new(u32::MAX, 0, vec![]).is_some());
}

#[test]
fn get_pixel_reads_channels() {
    let b = gradient(4, 3);
    assert_eq!(b.get_pixel(0, 0), Some([0, 0, 0, 255]));
    assert_eq!(b.get_pixel(3, 2), Some([3, 2, 5, 255]));
    assert_eq!(b.get_pixel(1, 2), Some([1, 2, 3, 255]));
}

#[test]
fn get_pixel_outside_is_none() {
    let b = gradient(4, 3);
    assert_eq!(b.get_pixel(4, 0), None);
    assert_eq!(b.get_pixel(0, 3), None);
    assert_eq!(b.get_pixel(u32::MAX, u32::MAX), None);
}

#[test]
fn clone_is_an_equal_independent_copy() {
    let b = gradient(5, 5);
    let c = b.clone();
    assert_eq!(c.width(), 5);
    assert_eq!(c.height(), 5);
    assert_eq!(c.as_bytes(), b.as_bytes());
}

#[test]
fn crop_of_200_by_150_yields_100_by_50() {
    let b = gradient(200, 150);
    let c = b.crop_imm(10, 10, 100, 50);
    assert_eq!((c.width(), c.height()), (100, 50));
    assert_eq!(c.as_bytes().len(), 100 * 50 * 4);
    for y in 0..50u32 {
        for x in 0..100u32 {
            assert_eq!(c.get_pixel(x, y), b.get_pixel(x + 10, y + 10));
        }
    }
}

#[test]
fn crop_is_cut_down_to_the_bitmap() {
    let b = gradient(10, 8);
    let c = b.crop_imm(6, 5, 100, 100);
    assert_eq!((c.width(), c.height()), (4, 3));
    assert_eq!(c.get_pixel(0, 0), Some([6, 5, 11, 255]));
    assert_eq!(c.get_pixel(3, 2), Some([9, 7, 16, 255]));
}

#[test]
fn crop_outside_is_empty() {
    let b = gradient(10, 8);
    let c = b.crop_imm(10, 0, 5, 5);
    assert_eq!((c.width(), c.height()), (0, 5));
    assert!(c.as_bytes().is_empty());
    let d = b.crop_imm(50, 50, 5, 5);
    assert_eq!((d.width(), d.height()), (0, 0));
    let e = b.crop_imm(0, 0, 0, 3);
    assert_eq!((e.width(), e.height()), (0, 3));
}

#[test]
fn crop_of_everything_is_the_bitmap() {
    let b = gradient(7, 9);
    let c = b.crop_imm(0, 0, u32::MAX, u32::MAX);
    assert_eq!((c.width(), c.height()), (7, 9));
    assert_eq!(c.as_bytes(), b.as_bytes());
}

#[test]
fn crop_agrees_with_the_image_crate() {
    let b = gradient(31, 17);
    let reference = image::RgbaImage::from_raw(31, 17, b.as_bytes().clone()).unwrap();
    let cases = [(0u32, 0u32, 31u32, 17u32), (3, 4, 10, 5), (30, 16, 9, 9), (31, 3, 2, 2), (5, 40, 3, 3)];
    for (x, y, w, h) in cases {
        let ours = b.crop_imm(x, y, w, h);
        let theirs = image::imageops::crop_imm(&reference, x, y, w, h).to_image();
        assert_eq!((ours.width(), ours.height()), (theirs.width(), theirs.height()));
        assert_eq!(ours.as_bytes(), theirs.as_raw());
    }
}
