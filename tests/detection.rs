use manga_watermark::detect::{classify_background, normalize, BackgroundKind, RectData};
use manga_watermark::generate::{BackgroundSearch, GenerateError};
use manga_watermark::raster::Raster;

const R: RectData = RectData { left: 835, top: 946, right: 994, bottom: 994 };

fn page(stripe: bool) -> Raster {
    let (w, h) = (1000u32, 1000u32);
    let mut data = Vec::with_capacity((w * h * 3) as usize);
    for y in 0..h {
        for x in 0..w {
            let inside = x >= R.left && x <= R.right && y >= R.top && y <= R.bottom;
            let px = if inside {
                let interior = x > R.left && x < R.right && y > R.top && y < R.bottom;
                let d = (x - (R.left + 1)) as i64 - (y as i64 - (R.top + 1) as i64);
                if stripe && interior && (0..30).contains(&d) {
                    [0, 0, 0]
                } else {
                    [10, 10, 10]
                }
            } else {
                [(x % 256) as u8, (y % 256) as u8, 77]
            };
            data.extend_from_slice(&px);
        }
    }
    Raster { width: w, height: h, data }
}

#[test]
fn detection_positive_dark() {
    let img = page(true);
    assert_eq!(classify_background(&img, &R), Some(BackgroundKind::Dark));
    let out = normalize(&img, &R);
    for y in 0..1000u32 {
        for x in 0..1000u32 {
            let inside = x >= R.left && x <= R.right && y >= R.top && y <= R.bottom;
            if inside {
                assert_eq!(out.get_pixel(x, y), img.get_pixel(x, y));
            } else {
                assert_eq!(out.get_pixel(x, y), (10, 10, 10));
            }
        }
    }
}

#[test]
fn detection_reject_near_uniform() {
    let img = page(false);
    assert_eq!(classify_background(&img, &R), None);
}

fn small(fill: u8, glyph: u8, border: u8) -> Raster {
    // 10x10 page, rectangle (2,2)-(7,7); interior rows 3..=6 hold a glyph in columns 3..=4.
    let mut data = Vec::new();
    for y in 0..10u32 {
        for x in 0..10u32 {
            let on_border = (2..=7).contains(&x) && (2..=7).contains(&y) && (x == 2 || x == 7 || y == 2 || y == 7);
            let glyph_px = (3..=6).contains(&y) && (3..=4).contains(&x);
            let v = if on_border { border } else if glyph_px { glyph } else { fill };
            data.extend_from_slice(&[v, v, v]);
        }
    }
    Raster { width: 10, height: 10, data }
}

const SMALL: RectData = RectData { left: 2, top: 2, right: 7, bottom: 7 };

#[test]
fn detection_light_page() {
    let img = small(240, 150, 240);
    assert_eq!(classify_background(&img, &SMALL), Some(BackgroundKind::Light));
}

#[test]
fn detection_light_page_with_dark_glyph_is_rejected() {
    // A glyph darker than 101 in red looks like a page number.
    let img = small(240, 90, 240);
    assert_eq!(classify_background(&img, &SMALL), None);
}

#[test]
fn detection_mid_grey_is_rejected() {
    let img = small(128, 60, 128);
    assert_eq!(classify_background(&img, &SMALL), None);
}

#[test]
fn detection_chromatic_corner_is_rejected() {
    let mut img = small(5, 60, 5);
    assert_eq!(classify_background(&img, &SMALL), Some(BackgroundKind::Dark));
    let i = ((2 * 10 + 2) * 3) as usize;
    img.data[i + 1] = 6;
    assert_eq!(classify_background(&img, &SMALL), None);
}

#[test]
fn detection_broken_border_is_rejected() {
    let mut img = small(5, 60, 5);
    let i = ((7 * 10 + 5) * 3) as usize;
    img.data[i] = 9;
    img.data[i + 1] = 9;
    img.data[i + 2] = 9;
    assert_eq!(classify_background(&img, &SMALL), None);
}

#[test]
fn default_rect_values() {
    let r = RectData::default_for(1000, 1000);
    assert_eq!(r, RectData { left: 835, top: 946, right: 994, bottom: 994 });
    let r = RectData::default_for(1100, 1600);
    assert_eq!(r, RectData { left: 918, top: 1513, right: 1093, bottom: 1590 });
}

#[test]
fn search_finds_pair_then_skips() {
    let mut s = BackgroundSearch::new(10, 10, SMALL);
    assert_eq!(s.finish(), Err(GenerateError::NoBackground { width: 10, height: 10 }));
    assert_eq!(s.offer(small(5, 60, 5)), Some(BackgroundKind::Dark));
    assert_eq!(s.offer(small(5, 60, 5)), None);
    assert_eq!(s.finish(), Err(GenerateError::SingleBackground { width: 10, height: 10 }));
    assert!(!s.is_complete());
    assert_eq!(s.offer(small(240, 150, 240)), Some(BackgroundKind::Light));
    assert!(s.is_complete());
    assert_eq!(s.offer(small(240, 150, 240)), None);
    assert_eq!(s.finish(), Ok(()));
    let black = s.black.as_ref().unwrap();
    assert_eq!(black.get_pixel(0, 0), (5, 5, 5));
    assert_eq!(black.get_pixel(3, 3), (60, 60, 60));
}

#[test]
fn search_ignores_other_sizes() {
    let mut s = BackgroundSearch::new(12, 12, SMALL);
    assert_eq!(s.offer(small(5, 60, 5)), None);
    assert!(s.black.is_none());
}
