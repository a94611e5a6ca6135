use manga_watermark::config::{Config, ImageFormat};
use manga_watermark::errors::{AnyhowErrorToStringChain, CommandError, ErrorChain};
use manga_watermark::paths::{
    get_background_dir_relative_path, is_jpeg_path, manga_dir_parent, output_path, parent_path, set_extension, PathError, PathIsImage,
};
use manga_watermark::titles::{filename_filter, get_ep_title, trim};
use manga_watermark::vendor::{check_status, BiliResponse, QrCodeStatus, QrCodeStatusData, VendorError};

#[test]
fn cookie_header() {
    let mut c = Config::default_for("/res");
    assert_eq!(c.output_dir, "/res");
    assert_eq!(c.output_format, ImageFormat::Jpeg);
    assert!(!c.output_optimize);
    assert_eq!(c.get_cookie(), "SESSDATA=");
    c.bili_cookie = "5a1f%2C17%2Cc0ffee".to_string();
    assert_eq!(c.get_cookie(), "SESSDATA=5a1f%2C17%2Cc0ffee");
}

#[test]
fn error_chain_rendering() {
    let msgs = vec!["top message".to_string(), "context".to_string(), "root cause".to_string()];
    assert_eq!(CommandError::from_chain(&msgs).message(), "0: top message\n1: context\n2: root cause\n");
    assert_eq!(ErrorChain { messages: msgs }.to_string_chain(), "0: top message\n1: context\n2: root cause\n");
    assert_eq!(CommandError::from_chain(&vec![]).message(), "");
}

#[test]
fn background_dir_names() {
    assert_eq!(get_background_dir_relative_path("/data/漫画/海贼王", 1100, 1600).unwrap(), "背景水印图/海贼王1100x1600");
    assert_eq!(get_background_dir_relative_path("/data/manga/", 4, 5).unwrap(), "背景水印图/manga4x5");
    assert_eq!(get_background_dir_relative_path("manga", 0, 7).unwrap(), "背景水印图/manga0x7");
    assert_eq!(get_background_dir_relative_path("/", 4, 5), Err(PathError::NoDirName));
    assert_eq!(get_background_dir_relative_path("", 4, 5), Err(PathError::NoDirName));
    assert_eq!(get_background_dir_relative_path("/data/..", 4, 5), Err(PathError::NoDirName));
    assert_eq!(get_background_dir_relative_path("a/.", 1, 1).unwrap(), "背景水印图/a1x1");
    assert_eq!(get_background_dir_relative_path("/data/manga/./", 2, 3).unwrap(), "背景水印图/manga2x3");
    assert_eq!(get_background_dir_relative_path("/data/manga/b.", 2, 3).unwrap(), "背景水印图/b.2x3");
    assert_eq!(get_background_dir_relative_path(".", 4, 5), Err(PathError::NoDirName));
    assert_eq!(get_background_dir_relative_path("/.", 4, 5), Err(PathError::NoDirName));
}

#[test]
fn output_locations() {
    let parent = parent_path("/data/漫画/海贼王").unwrap();
    assert_eq!(parent, "/data/漫画");
    assert_eq!(output_path("/out", &parent, "/data/漫画/海贼王/第1话/001.jpg").unwrap(), "/out/海贼王/第1话/001.jpg");
    assert_eq!(output_path("/out/", &parent, "/data/漫画/海贼王/001.jpg").unwrap(), "/out/海贼王/001.jpg");
    assert_eq!(output_path("/out", &parent, "/elsewhere/001.jpg"), Err(PathError::NotUnderParent));
    assert_eq!(parent_path("/manga").unwrap(), "/");
    assert_eq!(output_path("/out", "/", "/manga/a.jpg").unwrap(), "/out/manga/a.jpg");
    assert_eq!(parent_path("manga").unwrap(), "");
    assert_eq!(output_path("out", "", "manga/a.jpg").unwrap(), "out/manga/a.jpg");
    assert_eq!(parent_path("/"), None);
    assert_eq!(parent_path("a/."), Some(String::new()));
    assert_eq!(parent_path("/m/x/."), Some("/m".to_string()));
    assert_eq!(manga_dir_parent("/"), Err(PathError::NoParent));
    assert_eq!(manga_dir_parent("/data/漫画/海贼王/").unwrap(), "/data/漫画");
    assert_eq!(parent_path(""), None);
}

#[test]
fn extensions() {
    assert_eq!(set_extension("/out/a/001.jpg", "png"), "/out/a/001.png");
    assert_eq!(set_extension("/out/a/001.jpeg", "jpg"), "/out/a/001.jpg");
    assert_eq!(set_extension("/out/a.b/001", "png"), "/out/a.b/001.png");
    assert_eq!(set_extension("/out/.hidden", "png"), "/out/.hidden.png");
    assert!(is_jpeg_path("/a/b/001.JPG"));
    assert!(is_jpeg_path("/a/b/001.jpeg"));
    assert!(!is_jpeg_path("/a/b/001.png"));
    assert!(!is_jpeg_path("/a/b.jpg/001"));
    assert!("x/y.PNG".is_image());
    assert!("x/y.webp".is_image());
    assert!("x/y.Gif".is_image());
    assert!(!"x/y.txt".is_image());
    assert!(!"x/.jpg".is_image());
}

#[test]
fn titles() {
    assert_eq!(filename_filter("a<b>c:d\"e/f\\g|h?i*j"), "a_b_c_d_e_f_g_h_i_j");
    assert_eq!(filename_filter("tab\there\u{7f}"), "tabhere");
    assert_eq!(trim("  \t 第1话 \n"), "第1话");
    assert_eq!(trim("   "), "");
    assert_eq!(trim("\u{3000}第2话\u{a0}"), "第2话");
    assert_eq!(trim("\u{200b}x"), "\u{200b}x");
    assert_eq!(get_ep_title("开始", "第1话"), "第1话 开始");
    assert_eq!(get_ep_title("第1话", "第1话"), "第1话");
    assert_eq!(get_ep_title("A/B", " 1 "), "1  A_B");
    assert_eq!(get_ep_title("", " "), "");
}

#[test]
fn vendor_envelope() {
    assert_eq!(check_status(200, String::new()), Ok(()));
    assert_eq!(
        check_status(500, "oops".to_string()),
        Err(VendorError::HttpStatus { status: 500, body: "oops".to_string() })
    );
    let ok = BiliResponse { code: 0, msg: String::new(), data: Some(5) };
    assert_eq!(ok.into_data(), Ok(5));
    let bad = BiliResponse::<i32> { code: 1, msg: "denied".to_string(), data: Some(5) };
    assert_eq!(bad.into_data(), Err(VendorError::Vendor { code: 1, msg: "denied".to_string() }));
    let empty = BiliResponse::<i32> { code: 0, msg: String::new(), data: None };
    assert_eq!(empty.into_data(), Err(VendorError::NoPayload));
}

#[test]
fn qr_code_status() {
    let mut d = QrCodeStatusData {
        url: "https://passport.example/cross?DedeUserID=1&SESSDATA=abc%2C123&bili_jct=x".to_string(),
        refresh_token: String::new(),
        timestamp: 0,
        code: 0,
        message: String::new(),
    };
    assert_eq!(d.status(), QrCodeStatus::Complete("abc%2C123".to_string()));
    d.url = "https://x/?SESSDATA=tail".to_string();
    assert_eq!(d.status(), QrCodeStatus::Complete("tail".to_string()));
    d.code = 86101;
    assert_eq!(d.status(), QrCodeStatus::NotScan);
    d.code = 86090;
    assert_eq!(d.status(), QrCodeStatus::Scanning);
    d.code = 86038;
    assert_eq!(d.status(), QrCodeStatus::Invalid);
    d.code = 1;
    assert_eq!(d.status(), QrCodeStatus::Unknown);
}
