use manga_watermark::codec::{decode_image, encode_image, EncodeError};
use manga_watermark::config::ImageFormat;
use manga_watermark::corpus::{group_by_parent, size_counts};
use manga_watermark::events::RemoveEvent;
use manga_watermark::progress::RemoveProgress;
use manga_watermark::raster::Raster;

#[test]
fn grouping_by_parent() {
    let paths: Vec<String> = ["/m/c1/001.jpg", "/m/c2/001.jpg", "/m/c1/002.jpg", "/m/cover.jpg", "/m/c2/002.jpg"]
        .iter()
        .map(|s| s.to_string())
        .collect();
    let g = group_by_parent(&paths);
    assert_eq!(g.dirs, vec!["/m/c1", "/m/c2", "/m"]);
    assert_eq!(g.groups[0], vec!["/m/c1/001.jpg", "/m/c1/002.jpg"]);
    assert_eq!(g.groups[1], vec!["/m/c2/001.jpg", "/m/c2/002.jpg"]);
    assert_eq!(g.groups[2], vec!["/m/cover.jpg"]);
    assert!(group_by_parent(&vec![]).dirs.is_empty());
}

#[test]
fn size_histogram() {
    let sizes = vec![(800, 1200), (1100, 1600), (1100, 1600), (800, 1200), (1100, 1600), (5, 5)];
    let rows = size_counts(&sizes);
    let got: Vec<(u32, u32, u32)> = rows.iter().map(|r| (r.width, r.height, r.count)).collect();
    assert_eq!(got, vec![(1100, 1600, 3), (800, 1200, 2), (5, 5, 1)]);
    assert!(rows.iter().all(|r| r.black_background.is_none() && r.white_background.is_none()));
    assert!(size_counts(&vec![]).is_empty());
}

#[test]
fn size_histogram_ties_keep_first_appearance() {
    let rows = size_counts(&vec![(1, 1), (2, 2), (2, 2), (1, 1)]);
    let got: Vec<(u32, u32, u32)> = rows.iter().map(|r| (r.width, r.height, r.count)).collect();
    assert_eq!(got, vec![(1, 1, 2), (2, 2, 2)]);
}

fn describe(e: &RemoveEvent) -> String {
    match e {
        RemoveEvent::Start(s) => format!("start {} {}", s.0.dir_path, s.0.total),
        RemoveEvent::Success(s) => format!("success {} {} {}", s.0.dir_path, s.0.img_path, s.0.current),
        RemoveEvent::Error(s) => format!("error {}", s.0.dir_path),
        RemoveEvent::End(s) => format!("end {}", s.0.dir_path),
    }
}

#[test]
fn directory_progress_events() {
    let (mut p, starts) = RemoveProgress::new(vec!["a".to_string(), "b".to_string()], vec![2, 1]);
    let mut log: Vec<String> = starts.iter().map(describe).collect();
    for (k, img) in [(0usize, "o/a/1.jpg"), (1, "o/b/1.jpg"), (0, "o/a/2.jpg")] {
        log.extend(p.record(k, img.to_string()).iter().map(describe));
    }
    assert_eq!(
        log,
        vec![
            "start a 2",
            "start b 1",
            "success a o/a/1.jpg 1",
            "success b o/b/1.jpg 1",
            "end b",
            "success a o/a/2.jpg 2",
            "end a",
        ]
    );
    assert_eq!(p.currents, vec![2, 1]);
}

fn grey(w: u32, h: u32) -> Raster {
    let mut data = Vec::new();
    for i in 0..w * h {
        let v = (i * 37 % 256) as u8;
        data.extend_from_slice(&[v, v, v]);
    }
    Raster { width: w, height: h, data }
}

#[test]
fn luma_png_is_lossless_on_grey() {
    let img = grey(5, 3);
    assert!(img.is_grey());
    let plane = img.luma_plane();
    assert_eq!(plane.len(), 15);
    let luma = encode_image(&img, ImageFormat::Png, true).unwrap();
    let rgb = encode_image(&img, ImageFormat::Png, false).unwrap();
    assert_ne!(luma, rgb);
    let back = decode_image(&luma).unwrap();
    assert_eq!((back.width, back.height), (5, 3));
    for i in 0..15 {
        assert_eq!(back.data[3 * i], img.data[3 * i]);
    }
    assert_eq!(back.data, img.data);
}

#[test]
fn colour_raster_is_not_stored_as_luma() {
    let mut img = grey(2, 2);
    img.data[1] = img.data[1].wrapping_add(1);
    assert!(!img.is_grey());
    assert_eq!(encode_image(&img, ImageFormat::Png, true).unwrap(), encode_image(&img, ImageFormat::Png, false).unwrap());
}

#[test]
fn jpeg_encoding() {
    let img = grey(16, 8);
    let bytes = encode_image(&img, ImageFormat::Jpeg, true).unwrap();
    assert_eq!(&bytes[..2], &[0xFF, 0xD8]);
    let back = decode_image(&bytes).unwrap();
    assert_eq!((back.width, back.height), (16, 8));
    let big = Raster { width: 70000, height: 1, data: vec![0; 210000] };
    assert_eq!(encode_image(&big, ImageFormat::Jpeg, false), Err(EncodeError::TooLarge { width: 70000, height: 1 }));
}

#[test]
fn empty_raster_is_refused_by_the_jpeg_encoder() {
    let empty = Raster { width: 0, height: 0, data: vec![] };
    assert!(matches!(encode_image(&empty, ImageFormat::Jpeg, false), Err(EncodeError::Encoder(_))));
    assert!(matches!(encode_image(&empty, ImageFormat::Png, false), Err(EncodeError::Encoder(_))));
}

#[test]
fn undecodable_bytes() {
    let e = decode_image(b"GIF89a nonsense").unwrap_err();
    assert!(!e.cause.is_empty());
}
