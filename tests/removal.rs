use manga_watermark::codec::{decode_image, encode_image};
use manga_watermark::config::ImageFormat;
use manga_watermark::raster::Raster;
use manga_watermark::removal::{remove_image_watermark, remove_page_watermark, unmix_channel, Backgrounds, PageOutput, RemoveError};
use manga_watermark::types::ImageData;

fn solid(w: u32, h: u32, px: [u8; 3]) -> Raster {
    let mut data = Vec::new();
    for _ in 0..w * h {
        data.extend_from_slice(&px);
    }
    Raster { width: w, height: h, data }
}

fn png(r: &Raster) -> Vec<u8> {
    encode_image(r, ImageFormat::Png, false).unwrap()
}

fn envelope(r: &Raster, path: &str) -> ImageData {
    ImageData::from_file_bytes(path.to_string(), r.width, r.height, &png(r))
}

#[test]
fn unmix_identity_every_value() {
    for i in 0..=255u8 {
        assert_eq!(unmix_channel(i, 0, 255, 0), i);
    }
}

#[test]
fn unmix_formula_values() {
    // (100 - 50) / ((250 - 50) / 255) + 0 = 63.75 -> 64
    assert_eq!(unmix_channel(100, 50, 250, 0), 64);
    // adds the black reference's background colour: 63.75 + 10 -> 74
    assert_eq!(unmix_channel(100, 50, 250, 10), 74);
    // below the black reference: negative, clamped to 0
    assert_eq!(unmix_channel(40, 50, 250, 0), 0);
    // above the white reference: clamped to 255
    assert_eq!(unmix_channel(255, 0, 100, 0), 255);
    // equal references: saturates upwards, or 0 when the input equals them
    assert_eq!(unmix_channel(120, 100, 100, 0), 255);
    assert_eq!(unmix_channel(100, 100, 100, 7), 0);
    assert_eq!(unmix_channel(80, 100, 100, 7), 0);
    // a half rounds away from zero: (1 - 0) / (2 / 255) = 127.5 -> 128
    assert_eq!(unmix_channel(1, 0, 2, 0), 128);
}

#[test]
fn removal_identity() {
    let black = solid(4, 4, [0, 0, 0]);
    let white = solid(4, 4, [255, 255, 255]);
    let mut img = solid(4, 4, [10, 20, 30]);
    let before = img.data.clone();
    remove_image_watermark(&black, &white, &mut img);
    assert_eq!(img.data, before);

    let pairs = vec![(envelope(&black, "b.png"), envelope(&white, "w.png"))];
    let reg = Backgrounds::from_envelopes(&pairs).unwrap();
    match remove_page_watermark(&reg, &png(&solid(4, 4, [10, 20, 30])), ImageFormat::Png, false).unwrap() {
        PageOutput::Encoded(bytes) => {
            let out = decode_image(&bytes).unwrap();
            assert_eq!((out.width, out.height), (4, 4));
            assert_eq!(out.data, before);
        },
        PageOutput::Copied => panic!("a page of a registered size is processed"),
    }
}

#[test]
fn removal_changes_pixels_under_watermark() {
    let black = solid(2, 1, [50, 50, 50]);
    let white = solid(2, 1, [250, 250, 250]);
    let mut img = solid(2, 1, [100, 100, 100]);
    remove_image_watermark(&black, &white, &mut img);
    assert_eq!(img.data, vec![114, 114, 114, 114, 114, 114]);
}

#[test]
fn removal_leaves_other_sizes() {
    let black = solid(2, 2, [0, 0, 0]);
    let white = solid(2, 2, [200, 200, 200]);
    let mut img = solid(3, 3, [10, 20, 30]);
    let before = img.data.clone();
    remove_image_watermark(&black, &white, &mut img);
    assert_eq!(img.data, before);
}

#[test]
fn mismatched_size_passthrough() {
    let pairs = vec![(envelope(&solid(4, 4, [0, 0, 0]), "b.png"), envelope(&solid(4, 4, [255, 255, 255]), "w.png"))];
    let reg = Backgrounds::from_envelopes(&pairs).unwrap();
    assert!(reg.needs_removal(4, 4));
    assert!(!reg.needs_removal(5, 5));
    let page = png(&solid(5, 5, [1, 2, 3]));
    assert!(matches!(remove_page_watermark(&reg, &page, ImageFormat::Jpeg, true), Ok(PageOutput::Copied)));
}

#[test]
fn pair_sizes_match_their_key() {
    let pairs = vec![
        (envelope(&solid(4, 4, [0, 0, 0]), "b4.png"), envelope(&solid(4, 4, [255, 255, 255]), "w4.png")),
        (envelope(&solid(3, 2, [0, 0, 0]), "b3.png"), envelope(&solid(3, 2, [255, 255, 255]), "w3.png")),
    ];
    let reg = Backgrounds::from_envelopes(&pairs).unwrap();
    for (w, h) in [(4u32, 4u32), (3, 2)] {
        let k = reg.lookup(w, h).unwrap();
        let p = &reg.pairs[k];
        assert_eq!((p.black.width, p.black.height), (w, h));
        assert_eq!((p.white.width, p.white.height), (w, h));
    }
    assert_eq!(reg.lookup(2, 3), None);
}

#[test]
fn later_pair_replaces_earlier() {
    let pairs = vec![
        (envelope(&solid(2, 2, [0, 0, 0]), "b1.png"), envelope(&solid(2, 2, [255, 255, 255]), "w1.png")),
        (envelope(&solid(2, 2, [9, 9, 9]), "b2.png"), envelope(&solid(2, 2, [200, 200, 200]), "w2.png")),
    ];
    let reg = Backgrounds::from_envelopes(&pairs).unwrap();
    let k = reg.lookup(2, 2).unwrap();
    assert_eq!(k, 1);
    assert_eq!(reg.pairs[k].black.get_pixel(0, 0), (9, 9, 9));
}

#[test]
fn mismatched_pair_is_rejected() {
    let pairs = vec![(envelope(&solid(4, 4, [0, 0, 0]), "b.png"), envelope(&solid(4, 5, [255, 255, 255]), "w.png"))];
    match Backgrounds::from_envelopes(&pairs) {
        Err(e) => assert_eq!(e, RemoveError::SizeMismatch { black_width: 4, black_height: 4, white_width: 4, white_height: 5 }),
        Ok(_) => panic!("a pair of different sizes is refused"),
    }
}

#[test]
fn unreadable_reference_is_rejected() {
    let good = envelope(&solid(4, 4, [255, 255, 255]), "w.png");
    let mut bad = envelope(&solid(4, 4, [0, 0, 0]), "b.png");
    bad.base64 = "!!!".to_string();
    match Backgrounds::from_envelopes(&vec![(bad.clone(), good.clone())]) {
        Err(RemoveError::BlackUnreadable { path, .. }) => assert_eq!(path, "b.png"),
        _ => panic!("an unreadable black reference is refused"),
    }
    let not_image = ImageData::from_file_bytes("w.png".to_string(), 4, 4, b"plain text");
    match Backgrounds::from_envelopes(&vec![(envelope(&solid(4, 4, [0, 0, 0]), "b.png"), not_image)]) {
        Err(RemoveError::WhiteUnreadable { path, .. }) => assert_eq!(path, "w.png"),
        _ => panic!("an unreadable white reference is refused"),
    }
}

#[test]
fn undecodable_page_fails() {
    let reg = Backgrounds::from_envelopes(&vec![]).unwrap();
    assert!(matches!(remove_page_watermark(&reg, b"not an image", ImageFormat::Png, false), Err(RemoveError::DecodeFailed(_))));
}

#[test]
fn base64_round_trip_of_file_bytes() {
    let bytes: Vec<u8> = (0..=255u8).chain([0, 1, 2]).collect();
    let d = ImageData::from_file_bytes("x.jpg".to_string(), 7, 9, &bytes);
    assert_eq!(d.info.path, "x.jpg");
    assert_eq!((d.info.width, d.info.height), (7, 9));
    assert_eq!(d.file_bytes().unwrap(), bytes);
    assert_eq!(ImageData::from_file_bytes("a".to_string(), 1, 1, b"abc").base64, "YWJj");
    let mut bad = d.clone();
    bad.base64.push('!');
    assert!(bad.file_bytes().is_err());
}

#[test]
fn envelope_to_image() {
    let img = solid(3, 2, [1, 2, 3]);
    let d = envelope(&img, "p.png");
    let back = d.to_image().unwrap();
    assert_eq!((back.width, back.height), (3, 2));
    assert_eq!(back.data, img.data);
    let text = ImageData::from_file_bytes("t.txt".to_string(), 0, 0, b"text");
    assert!(text.to_image().is_err());
}

#[test]
fn oversized_jpeg_page_fails_to_encode() {
    let pairs = vec![(envelope(&solid(70000, 1, [0, 0, 0]), "b.png"), envelope(&solid(70000, 1, [255, 255, 255]), "w.png"))];
    let reg = Backgrounds::from_envelopes(&pairs).unwrap();
    let page = png(&solid(70000, 1, [3, 3, 3]));
    match remove_page_watermark(&reg, &page, ImageFormat::Jpeg, false) {
        Err(RemoveError::EncodeFailed(e)) => {
            assert_eq!(e, manga_watermark::codec::EncodeError::TooLarge { width: 70000, height: 1 });
        },
        _ => panic!("JPEG cannot hold 70000 pixels on a side"),
    }
    assert!(matches!(remove_page_watermark(&reg, &page, ImageFormat::Png, false), Ok(PageOutput::Encoded(_))));
}
