use manga_watermark::download::{
    episodes_of, format_speed, image_token_request, EpisodeSummary, Image, image_file_name, image_urls, temp_dir_name, DownloadCounters, DownloadEvent, Episode, EpisodeTracker, Phase, UrlToken,
};

fn episode() -> Episode {
    Episode {
        ep_id: 42,
        ep_title: "第1话 开始".to_string(),
        comic_id: 7,
        comic_title: "漫画".to_string(),
        is_locked: false,
        is_downloaded: false,
    }
}

#[test]
fn partial_chapter() {
    let (mut t, pending) = EpisodeTracker::new(&episode());
    assert!(matches!(pending, DownloadEvent::Pending { ep_id: 42, .. }));
    let urls: Vec<String> = (0..10).map(|i| format!("https://host/{i}.jpg?token=t")).collect();
    match t.start(urls.len() as u32) {
        DownloadEvent::Start { ep_id, title, total } => {
            assert_eq!((ep_id, title.as_str(), total), (42, "第1话 开始", 10));
        },
        _ => panic!("start event expected"),
    }
    let mut successes = 0;
    let mut errors = Vec::new();
    for (i, url) in urls.iter().enumerate() {
        let ev = if i == 7 {
            t.image_failed(url.clone(), "0: 下载图片失败\n".to_string())
        } else {
            t.image_saved(format!("/tmp/.下载中-x/{}", image_file_name(i as u64)))
        };
        match ev {
            DownloadEvent::ImageSuccess { current, .. } => {
                successes += 1;
                assert_eq!(current, successes);
            },
            DownloadEvent::ImageError { url, .. } => errors.push(url),
            _ => panic!("page event expected"),
        }
    }
    assert_eq!(successes, 9);
    assert_eq!(errors, vec![urls[7].clone()]);
    let (commit, end) = t.finish();
    assert!(!commit);
    match end {
        DownloadEvent::End { ep_id, err_msg } => {
            assert_eq!(ep_id, 42);
            assert_eq!(err_msg.as_deref(), Some("总共有 10 张图片，但只下载了 9 张"));
        },
        _ => panic!("end event expected"),
    }
    assert_eq!(t.phase, Phase::Ended);
}

#[test]
fn complete_chapter_commits() {
    let (mut t, _) = EpisodeTracker::new(&episode());
    t.start(2);
    t.image_saved("a".to_string());
    t.image_saved("b".to_string());
    let (commit, end) = t.finish();
    assert!(commit);
    assert!(matches!(end, DownloadEvent::End { ep_id: 42, err_msg: None }));
}

#[test]
fn empty_chapter_commits() {
    let (mut t, _) = EpisodeTracker::new(&episode());
    t.start(0);
    let (commit, _) = t.finish();
    assert!(commit);
}

#[test]
fn episode_event_order() {
    let (mut t, first) = EpisodeTracker::new(&episode());
    let mut log = vec![first];
    log.push(t.start(3));
    log.push(t.image_saved("a".to_string()));
    log.push(t.image_failed("u".to_string(), "e".to_string()));
    log.push(t.image_saved("c".to_string()));
    log.push(t.finish().1);
    let kinds: Vec<&str> = log
        .iter()
        .map(|e| match e {
            DownloadEvent::Pending { .. } => "pending",
            DownloadEvent::Start { .. } => "start",
            DownloadEvent::ImageSuccess { .. } | DownloadEvent::ImageError { .. } => "page",
            DownloadEvent::End { .. } => "end",
            _ => "other",
        })
        .collect();
    assert_eq!(kinds, vec!["pending", "start", "page", "page", "page", "end"]);
}

#[test]
fn overall_progress_reset() {
    let mut c = DownloadCounters::new();
    c.add_pages(3);
    c.add_pages(5);
    let mut seen = Vec::new();
    for _ in 0..3 {
        seen.push(c.page_finished());
    }
    c.settle();
    assert_eq!((c.downloaded, c.total), (3, 8));
    for _ in 0..5 {
        seen.push(c.page_finished());
    }
    match seen.last().unwrap() {
        DownloadEvent::OverallProgress { downloaded, total } => assert_eq!((*downloaded, *total), (8, 8)),
        _ => panic!("progress event expected"),
    }
    c.settle();
    assert_eq!((c.downloaded, c.total), (0, 0));
}

#[test]
fn speed_text_values() {
    assert_eq!(format_speed(0), "0.00 MB/s");
    assert_eq!(format_speed(1048576), "1.00 MB/s");
    assert_eq!(format_speed(1572864), "1.50 MB/s");
    assert_eq!(format_speed(10 * 1048576 + 10486), "10.01 MB/s");
    // exactly 0.125: the half goes to the even neighbour
    assert_eq!(format_speed(131072), "0.12 MB/s");
    assert_eq!(format_speed(5242), "0.00 MB/s");
    assert_eq!(format_speed(5243), "0.01 MB/s");
}

#[test]
fn speed_counter_is_read_and_zeroed() {
    let mut c = DownloadCounters::new();
    c.add_bytes(1048576);
    c.add_bytes(1048576);
    match c.take_speed() {
        DownloadEvent::Speed { speed } => assert_eq!(speed, "2.00 MB/s"),
        _ => panic!("speed event expected"),
    }
    assert_eq!(c.bytes, 0);
    c.add_bytes(u64::MAX);
    c.add_bytes(5);
    assert_eq!(c.bytes, u64::MAX);
}

#[test]
fn urls_and_names() {
    let tokens = vec![
        UrlToken { url: "https://i0.hdslb.com/a.jpg".to_string(), token: "abc".to_string() },
        UrlToken { url: "https://i0.hdslb.com/b.jpg".to_string(), token: "def".to_string() },
    ];
    assert_eq!(image_urls(&tokens), vec!["https://i0.hdslb.com/a.jpg?token=abc", "https://i0.hdslb.com/b.jpg?token=def"]);
    assert_eq!(image_file_name(0), "000.jpg");
    assert_eq!(image_file_name(7), "007.jpg");
    assert_eq!(image_file_name(123), "123.jpg");
    assert_eq!(image_file_name(1234), "1234.jpg");
    assert_eq!(temp_dir_name("第1话"), ".下载中-第1话");
}

#[test]
fn episodes_in_reading_order() {
    let list = vec![
        EpisodeSummary { id: 3, title: "结局".to_string(), short_title: "第3话".to_string(), is_locked: true },
        EpisodeSummary { id: 2, title: "第2话".to_string(), short_title: "第2话".to_string(), is_locked: false },
        EpisodeSummary { id: 1, title: "开始?".to_string(), short_title: " 第1话".to_string(), is_locked: false },
    ];
    let eps = episodes_of(9, "漫画", &list);
    let got: Vec<(i64, &str, bool)> = eps.iter().map(|e| (e.ep_id, e.ep_title.as_str(), e.is_locked)).collect();
    assert_eq!(got, vec![(1, "第1话 开始_", false), (2, "第2话", false), (3, "第3话 结局", true)]);
    assert!(eps.iter().all(|e| e.comic_id == 9 && e.comic_title == "漫画" && !e.is_downloaded));
}

#[test]
fn token_request_lists_paths_in_order() {
    let img = |p: &str| Image { path: p.to_string(), video_path: String::new(), video_size: String::new(), x: 0, y: 0 };
    let images = vec![img("/bfs/manga/2.jpg"), img("/bfs/manga/1.jpg")];
    assert_eq!(image_token_request(&images), r#"["/bfs/manga/2.jpg","/bfs/manga/1.jpg"]"#);
    assert_eq!(image_token_request(&vec![]), "[]");
}
