use insta_mosaic::picture::{Picture, Rgba};
use insta_mosaic::size::ImageSize;

fn shade(v: u8) -> Rgba {
    Rgba { r: v, g: v, b: v, a: 255 }
}

#[test]
fn filled_picture_has_one_colour_everywhere() {
    let p = Picture::filled(ImageSize { width: 3, height: 2 }, shade(7));
    assert_eq!(p.get_size(), ImageSize { width: 3, height: 2 });
    for y in 0..2 {
        for x in 0..3 {
            assert_eq!(p.pixel(x, y), Some(shade(7)));
        }
    }
    assert_eq!(p.pixel(3, 0), None);
    assert_eq!(p.pixel(0, 2), None);
}

#[test]
fn clear_pixel_is_fully_transparent_black() {
    assert_eq!(Rgba::clear(), Rgba { r: 0, g: 0, b: 0, a: 0 });
}

#[test]
fn put_pixel_changes_one_pixel_only() {
    let mut p = Picture::filled(ImageSize { width: 3, height: 3 }, shade(1));
    assert!(p.put_pixel(2, 1, shade(9)));
    for y in 0..3 {
        for x in 0..3 {
            let expected = if x == 2 && y == 1 { shade(9) } else { shade(1) };
            assert_eq!(p.pixel(x, y), Some(expected));
        }
    }
    assert!(!p.put_pixel(3, 1, shade(9)));
    assert!(!p.put_pixel(1, 3, shade(9)));
}

#[test]
fn overpaint_covers_exactly_the_rectangle() {
    let mut canvas = Picture::filled(ImageSize { width: 6, height: 5 }, shade(0));
    let mut piece = Picture::filled(ImageSize { width: 2, height: 3 }, shade(50));
    piece.put_pixel(1, 2, shade(99));
    assert!(canvas.overpaint_by(&piece, 3, 1));
    for y in 0..5u32 {
        for x in 0..6u32 {
            let inside = (3..5).contains(&x) && (1..4).contains(&y);
            let expected = if inside { piece.pixel(x - 3, y - 1).unwrap() } else { shade(0) };
            assert_eq!(canvas.pixel(x, y), Some(expected));
        }
    }
    assert_eq!(canvas.pixel(4, 3), Some(shade(99)));
}

#[test]
fn overpaint_over_the_edge_changes_nothing() {
    let mut canvas = Picture::filled(ImageSize { width: 4, height: 4 }, shade(3));
    let piece = Picture::filled(ImageSize { width: 2, height: 2 }, shade(200));
    assert!(!canvas.overpaint_by(&piece, 3, 0));
    assert!(!canvas.overpaint_by(&piece, 0, 3));
    assert!(!canvas.overpaint_by(&piece, u32::MAX, 0));
    for y in 0..4 {
        for x in 0..4 {
            assert_eq!(canvas.pixel(x, y), Some(shade(3)));
        }
    }
    assert!(canvas.overpaint_by(&piece, 2, 2));
    assert_eq!(canvas.pixel(3, 3), Some(shade(200)));
}

#[test]
fn grey_value_weighs_the_colours() {
    let size = ImageSize { width: 1, height: 1 };
    let cases = [
        (Rgba { r: 255, g: 255, b: 255, a: 0 }, 255u64),
        (Rgba { r: 0, g: 0, b: 0, a: 255 }, 0),
        (Rgba { r: 10, g: 20, b: 30, a: 255 }, 18),
        (Rgba { r: 255, g: 0, b: 0, a: 255 }, 54),
        (Rgba { r: 0, g: 255, b: 0, a: 255 }, 182),
        (Rgba { r: 0, g: 0, b: 255, a: 255 }, 18),
        (Rgba { r: 1, g: 1, b: 1, a: 255 }, 1),
        (Rgba { r: 200, g: 100, b: 50, a: 7 }, 117),
    ];
    for (pixel, grey) in cases {
        let p = Picture::filled(size, pixel);
        assert_eq!(p.luma_total(0, 0, 1, 1), Some(grey));
    }
}

#[test]
fn luma_total_sums_a_region() {
    let mut p = Picture::filled(ImageSize { width: 4, height: 3 }, shade(10));
    p.put_pixel(1, 1, shade(100));
    p.put_pixel(3, 2, shade(200));
    assert_eq!(p.luma_total(0, 0, 4, 3), Some(10 * 10 + 100 + 200));
    assert_eq!(p.luma_total(1, 1, 1, 1), Some(100));
    assert_eq!(p.luma_total(0, 0, 2, 2), Some(3 * 10 + 100));
    assert_eq!(p.luma_total(2, 1, 2, 2), Some(3 * 10 + 200));
    assert_eq!(p.luma_total(0, 0, 0, 0), Some(0));
    assert_eq!(p.luma_total(4, 3, 0, 0), Some(0));
}

#[test]
fn luma_total_outside_the_picture_is_none() {
    let p = Picture::filled(ImageSize { width: 4, height: 3 }, shade(10));
    assert_eq!(p.luma_total(1, 0, 4, 1), None);
    assert_eq!(p.luma_total(0, 1, 1, 3), None);
    assert_eq!(p.luma_total(u32::MAX, 0, 1, 1), None);
}

#[test]
fn duplicate_has_the_same_pixels() {
    let mut p = Picture::filled(ImageSize { width: 3, height: 2 }, shade(5));
    p.put_pixel(0, 1, shade(77));
    let copy = p.duplicate();
    assert_eq!(copy.get_size(), p.get_size());
    for y in 0..2 {
        for x in 0..3 {
            assert_eq!(copy.pixel(x, y), p.pixel(x, y));
        }
    }
}

#[test]
fn picture_is_read_from_raw_bytes_row_by_row() {
    let bytes: Vec<u8> = (1..=24).collect();
    let p = Picture::from_rgba_bytes(ImageSize { width: 2, height: 3 }, &bytes).unwrap();
    assert_eq!(p.get_size(), ImageSize { width: 2, height: 3 });
    assert_eq!(p.pixel(0, 0), Some(Rgba { r: 1, g: 2, b: 3, a: 4 }));
    assert_eq!(p.pixel(1, 0), Some(Rgba { r: 5, g: 6, b: 7, a: 8 }));
    assert_eq!(p.pixel(0, 1), Some(Rgba { r: 9, g: 10, b: 11, a: 12 }));
    assert_eq!(p.pixel(1, 2), Some(Rgba { r: 21, g: 22, b: 23, a: 24 }));
    assert_eq!(p.pixel(2, 0), None);
    assert_eq!(p.to_rgba_bytes(), bytes);
}

#[test]
fn raw_bytes_have_to_match_the_size_exactly() {
    let bytes: Vec<u8> = (1..=24).collect();
    assert!(Picture::from_rgba_bytes(ImageSize { width: 3, height: 3 }, &bytes).is_none());
    assert!(Picture::from_rgba_bytes(ImageSize { width: 2, height: 2 }, &bytes).is_none());
    assert!(Picture::from_rgba_bytes(ImageSize { width: 3, height: 2 }, &bytes).is_some());
    assert!(Picture::from_rgba_bytes(ImageSize { width: 6, height: 1 }, &bytes).is_some());
    assert!(Picture::from_rgba_bytes(ImageSize { width: 0, height: 0 }, &[]).is_some());
    assert!(Picture::from_rgba_bytes(ImageSize { width: 0, height: 5 }, &[]).is_some());
    assert!(Picture::from_rgba_bytes(ImageSize { width: u32::MAX, height: u32::MAX }, &bytes).is_none());
}

#[test]
fn raw_bytes_go_row_by_row_four_per_pixel() {
    let mut p = Picture::filled(ImageSize { width: 2, height: 2 }, Rgba { r: 0, g: 0, b: 0, a: 0 });
    p.put_pixel(0, 0, Rgba { r: 1, g: 2, b: 3, a: 4 });
    p.put_pixel(1, 0, Rgba { r: 5, g: 6, b: 7, a: 8 });
    p.put_pixel(0, 1, Rgba { r: 9, g: 10, b: 11, a: 12 });
    p.put_pixel(1, 1, Rgba { r: 13, g: 14, b: 15, a: 16 });
    assert_eq!(p.to_rgba_bytes(), (1..=16).collect::<Vec<u8>>());
}
