//! Decisions of the chapter downloader: the lifecycle of one episode with its events, the
//! overall counters shared by all episodes, and the names of what gets written.
use vstd::prelude::*;
use vstd::string::*;
use crate::text::{decimal, decimal_padded, push_decimal, push_decimal_padded, push_text};
use crate::codec::{json_string_array, json_strings};
use crate::titles::{ep_title_of, get_ep_title};

verus! {

/// A chapter offered for download.
#[derive(Debug, Clone)]
pub struct Episode {
    pub ep_id: i64,
    pub ep_title: String,
    pub comic_id: i64,
    pub comic_title: String,
    pub is_locked: bool,
    pub is_downloaded: bool,
}

/// A chapter as the comic's detail lists it.
#[derive(Debug, Clone)]
pub struct EpisodeSummary {
    pub id: i64,
    pub title: String,
    pub short_title: String,
    pub is_locked: bool,
}

/// The chapters of a comic in reading order (the detail lists the newest first), each with
/// its file-system title; whether one is already downloaded is left for the caller to set.
pub fn episodes_of(comic_id: i64, comic_title: &str, list: &Vec<EpisodeSummary>) -> (r: Vec<Episode>)
    ensures
        r@.len() == list@.len(),
        forall|i: int| 0 <= i < r@.len() ==> {
            let src = #[trigger] list@[list@.len() - 1 - i];
            let ep = r@[i];
            &&& ep.ep_id == src.id
            &&& ep.ep_title@ == ep_title_of(src.title@, src.short_title@)
            &&& ep.comic_id == comic_id
            &&& ep.comic_title@ == comic_title@
            &&& ep.is_locked == src.is_locked
            &&& !ep.is_downloaded
        },
{
    let n = list.len();
    let mut out: Vec<Episode> = Vec::new();
    let mut i: usize = 0;
    while i < n
        invariant
            n == list@.len(),
            i <= n,
            out@.len() == i,
            forall|k: int| 0 <= k < i ==> {
                let src = #[trigger] list@[n - 1 - k];
                let ep = out@[k];
                &&& ep.ep_id == src.id
                &&& ep.ep_title@ == ep_title_of(src.title@, src.short_title@)
                &&& ep.comic_id == comic_id
                &&& ep.comic_title@ == comic_title@
                &&& ep.is_locked == src.is_locked
                &&& !ep.is_downloaded
            },
        decreases n - i,
    {
        let src = &list[n - 1 - i];
        out.push(Episode {
            ep_id: src.id,
            ep_title: get_ep_title(src.title.as_str(), src.short_title.as_str()),
            comic_id,
            comic_title: String::from_str(comic_title),
            is_locked: src.is_locked,
            is_downloaded: false,
        });
        i = i + 1;
    }
    out
}

/// A page URL with the access token minted for it.
#[derive(Debug, Clone)]
pub struct UrlToken {
    pub url: String,
    pub token: String,
}

/// One page of a chapter's image index, in page order.
#[derive(Debug, Clone)]
pub struct Image {
    pub path: String,
    pub video_path: String,
    pub video_size: String,
    pub x: i64,
    pub y: i64,
}

/// Events of the downloader.
#[derive(Debug, Clone)]
pub enum DownloadEvent {
    /// The episode is queued.
    Pending { ep_id: i64, title: String },
    /// The episode holds a slot and its `total` pages are being fetched.
    Start { ep_id: i64, title: String, total: u32 },
    /// A page was saved to `url`; `current` pages of the episode are saved so far.
    ImageSuccess { ep_id: i64, url: String, current: u32 },
    /// A page could not be fetched or saved.
    ImageError { ep_id: i64, url: String, err_msg: String },
    /// The episode is over; `err_msg` tells how many pages are missing, if any.
    End { ep_id: i64, err_msg: Option<String> },
    /// Pages finished over all episodes, out of all pages queued.
    OverallProgress { downloaded: u64, total: u64 },
    /// Download speed over the last second.
    Speed { speed: String },
}

/// The episode an event is about, if any.
pub open spec fn event_ep(e: DownloadEvent) -> Option<i64> {
    match e {
        DownloadEvent::Pending { ep_id, .. } => Some(ep_id),
        DownloadEvent::Start { ep_id, .. } => Some(ep_id),
        DownloadEvent::ImageSuccess { ep_id, .. } => Some(ep_id),
        DownloadEvent::ImageError { ep_id, .. } => Some(ep_id),
        DownloadEvent::End { ep_id, .. } => Some(ep_id),
        _ => None,
    }
}

/// The message of an episode that ended with pages missing.
pub open spec fn missing_pages_message(total: nat, current: nat) -> Seq<char> {
    "总共有 "@ + decimal(total) + " 张图片，但只下载了 "@ + decimal(current) + " 张"@
}

/// Where an episode is in its lifecycle.
#[derive(Debug, Clone, Copy, PartialEq, Eq, Structural)]
pub enum Phase {
    Pending,
    Started,
    Ended,
}

/// The lifecycle of one episode, with the log of the events it gave.
pub struct EpisodeTracker {
    pub ep_id: i64,
    pub title: String,
    pub phase: Phase,
    pub total: u32,
    pub succeeded: u32,
    pub reported: u32,
    pub log: Ghost<Seq<DownloadEvent>>,
}

/// A page event: a success or an error.
pub open spec fn is_page_event(e: DownloadEvent) -> bool {
    e is ImageSuccess || e is ImageError
}

impl EpisodeTracker {
    /// Counts agree and the log is: pending, then (once started) start and one page event per
    /// page reported, then (once ended) end; every event is about this episode.
    pub open spec fn wf(&self) -> bool {
        let log = self.log@;
        &&& self.succeeded <= self.reported <= self.total
        &&& forall|i: int| 0 <= i < log.len() ==> event_ep(#[trigger] log[i]) == Some(self.ep_id)
        &&& log.len() >= 1 && log[0] is Pending
        &&& self.phase == Phase::Pending ==> log.len() == 1 && self.reported == 0
        &&& self.phase != Phase::Pending ==> log.len() >= 2 && log[1] is Start
        &&& self.phase == Phase::Started ==> log.len() == 2 + self.reported
        &&& self.phase == Phase::Ended ==> log.len() == 3 + self.reported && log.last() is End
        &&& forall|i: int| 2 <= i < 2 + self.reported ==> is_page_event(#[trigger] log[i])
    }

    /// Queues an episode: the pending event.
    pub fn new(ep: &Episode) -> (r: (EpisodeTracker, DownloadEvent))
        ensures
            r.0.wf(),
            r.0.ep_id == ep.ep_id,
            r.0.title@ == ep.ep_title@,
            r.0.phase == Phase::Pending,
            r.0.log@ == seq![r.1],
            r.1 matches DownloadEvent::Pending { ep_id, title } && ep_id == ep.ep_id && title@ == ep.ep_title@,
    {
        let ev = DownloadEvent::Pending { ep_id: ep.ep_id, title: ep.ep_title.clone() };
        let ghost first = seq![ev];
        let t = EpisodeTracker {
            ep_id: ep.ep_id,
            title: ep.ep_title.clone(),
            phase: Phase::Pending,
            total: 0,
            succeeded: 0,
            reported: 0,
            log: Ghost(first),
        };
        (t, ev)
    }

    /// The episode got its slot and has `total` pages: the start event.
    pub fn start(&mut self, total: u32) -> (r: DownloadEvent)
        requires
            old(self).wf(),
            old(self).phase == Phase::Pending,
        ensures
            final(self).wf(),
            final(self).phase == Phase::Started,
            final(self).ep_id == old(self).ep_id,
            final(self).total == total,
            final(self).succeeded == 0 && final(self).reported == 0,
            final(self).log@ == old(self).log@.push(r),
            r matches DownloadEvent::Start { ep_id, title, total: t } && ep_id == old(self).ep_id
                && title@ == old(self).title@ && t == total,
    {
        let ev = DownloadEvent::Start { ep_id: self.ep_id, title: self.title.clone(), total };
        self.phase = Phase::Started;
        self.total = total;
        let ghost next = self.log@.push(ev);
        self.log = Ghost(next);
        ev
    }

    /// A page was saved to `save_path`: the success event with the new count.
    pub fn image_saved(&mut self, save_path: String) -> (r: DownloadEvent)
        requires
            old(self).wf(),
            old(self).phase == Phase::Started,
            old(self).reported < old(self).total,
        ensures
            final(self).wf(),
            final(self).phase == Phase::Started,
            final(self).ep_id == old(self).ep_id,
            final(self).total == old(self).total,
            final(self).succeeded == old(self).succeeded + 1,
            final(self).reported == old(self).reported + 1,
            final(self).log@ == old(self).log@.push(r),
            r matches DownloadEvent::ImageSuccess { ep_id, url, current } && ep_id == old(self).ep_id
                && url@ == save_path@ && current == old(self).succeeded + 1,
    {
        self.succeeded = self.succeeded + 1;
        self.reported = self.reported + 1;
        let ev = DownloadEvent::ImageSuccess { ep_id: self.ep_id, url: save_path, current: self.succeeded };
        let ghost next = self.log@.push(ev);
        self.log = Ghost(next);
        ev
    }

    /// A page could not be fetched or saved: the error event.
    pub fn image_failed(&mut self, url: String, err_msg: String) -> (r: DownloadEvent)
        requires
            old(self).wf(),
            old(self).phase == Phase::Started,
            old(self).reported < old(self).total,
        ensures
            final(self).wf(),
            final(self).phase == Phase::Started,
            final(self).ep_id == old(self).ep_id,
            final(self).total == old(self).total,
            final(self).succeeded == old(self).succeeded,
            final(self).reported == old(self).reported + 1,
            final(self).log@ == old(self).log@.push(r),
            r matches DownloadEvent::ImageError { ep_id, url: u, err_msg: m } && ep_id == old(self).ep_id
                && u@ == url@ && m@ == err_msg@,
    {
        self.reported = self.reported + 1;
        let ev = DownloadEvent::ImageError { ep_id: self.ep_id, url, err_msg };
        let ghost next = self.log@.push(ev);
        self.log = Ghost(next);
        ev
    }

    /// Ends the episode. It is committed (its temporary directory renamed into place) exactly
    /// when every page was saved; otherwise the end event says how many were.
    pub fn finish(&mut self) -> (r: (bool, DownloadEvent))
        requires
            old(self).wf(),
            old(self).phase == Phase::Started,
            old(self).reported == old(self).total,
        ensures
            final(self).wf(),
            final(self).phase == Phase::Ended,
            final(self).ep_id == old(self).ep_id,
            final(self).total == old(self).total,
            final(self).succeeded == old(self).succeeded,
            final(self).log@ == old(self).log@.push(r.1),
            r.0 == (old(self).succeeded == old(self).total),
            r.1 matches DownloadEvent::End { ep_id, err_msg } && ep_id == old(self).ep_id
                && (r.0 ==> err_msg is None)
                && (!r.0 ==> (err_msg matches Some(m)
                    && m@ == missing_pages_message(old(self).total as nat, old(self).succeeded as nat))),
    {
        let complete = self.succeeded == self.total;
        let err_msg = if complete {
            None
        } else {
            let mut m = String::new();
            push_text(&mut m, "总共有 ");
            push_decimal(&mut m, self.total as u64);
            push_text(&mut m, " 张图片，但只下载了 ");
            push_decimal(&mut m, self.succeeded as u64);
            push_text(&mut m, " 张");
            Some(m)
        };
        let ev = DownloadEvent::End { ep_id: self.ep_id, err_msg };
        self.phase = Phase::Ended;
        let ghost next = self.log@.push(ev);
        self.log = Ghost(next);
        (complete, ev)
    }
}

/// The order of an episode's events: the pending event comes first and only there, the
/// start event second and only there, the end event only last and only once the episode
/// ended, and every page event between the start and the end.
pub proof fn lemma_episode_event_order(t: EpisodeTracker)
    requires
        t.wf(),
    ensures
        t.log@[0] is Pending,
        forall|i: int| 0 <= i < t.log@.len() && (#[trigger] t.log@[i]) is Pending ==> i == 0,
        t.phase != Phase::Pending ==> t.log@[1] is Start,
        forall|i: int| 0 <= i < t.log@.len() && (#[trigger] t.log@[i]) is Start ==> i == 1,
        forall|i: int| 0 <= i < t.log@.len() && (#[trigger] t.log@[i]) is End ==> i == t.log@.len() - 1 && t.phase == Phase::Ended,
        t.phase == Phase::Ended ==> t.log@.last() is End,
        forall|i: int| 0 <= i < t.log@.len() && is_page_event(#[trigger] t.log@[i]) ==>
            1 < i && (t.phase == Phase::Ended ==> i < t.log@.len() - 1),
        forall|i: int| 0 <= i < t.log@.len() ==> event_ep(#[trigger] t.log@[i]) == Some(t.ep_id),
{
    assert forall|i: int| 0 <= i < t.log@.len() && (#[trigger] t.log@[i]) is Pending implies i == 0 by {
        if 2 <= i < 2 + t.reported {
            assert(is_page_event(t.log@[i]));
        }
    }
    assert forall|i: int| 0 <= i < t.log@.len() && (#[trigger] t.log@[i]) is Start implies i == 1 by {
        if 2 <= i < 2 + t.reported {
            assert(is_page_event(t.log@[i]));
        }
    }
    assert forall|i: int| 0 <= i < t.log@.len() && (#[trigger] t.log@[i]) is End implies i == t.log@.len() - 1 && t.phase == Phase::Ended by {
        if 2 <= i < 2 + t.reported {
            assert(is_page_event(t.log@[i]));
        }
    }
}

/// Pages finished and pages queued over all episodes, and bytes fetched since the last
/// speed reading.
pub struct DownloadCounters {
    pub downloaded: u64,
    pub total: u64,
    pub bytes: u64,
}

impl DownloadCounters {
    /// All counters at zero.
    pub fn new() -> (r: DownloadCounters)
        ensures
            r.downloaded == 0 && r.total == 0 && r.bytes == 0,
    {
        DownloadCounters { downloaded: 0, total: 0, bytes: 0 }
    }

    /// An episode with `n` pages was queued.
    pub fn add_pages(&mut self, n: u32)
        requires
            old(self).total + n <= u64::MAX,
        ensures
            final(self).total == old(self).total + n,
            final(self).downloaded == old(self).downloaded,
            final(self).bytes == old(self).bytes,
    {
        self.total = self.total + n as u64;
    }

    /// A page task of some episode is over, saved or not: the overall progress event.
    pub fn page_finished(&mut self) -> (r: DownloadEvent)
        requires
            old(self).downloaded < u64::MAX,
        ensures
            final(self).downloaded == old(self).downloaded + 1,
            final(self).total == old(self).total,
            final(self).bytes == old(self).bytes,
            r == (DownloadEvent::OverallProgress { downloaded: final(self).downloaded, total: final(self).total }),
    {
        self.downloaded = self.downloaded + 1;
        DownloadEvent::OverallProgress { downloaded: self.downloaded, total: self.total }
    }

    /// When every queued page is finished, both page counters go back to zero.
    pub fn settle(&mut self)
        ensures
            old(self).downloaded == old(self).total ==> final(self).downloaded == 0 && final(self).total == 0,
            old(self).downloaded != old(self).total ==> final(self).downloaded == old(self).downloaded
                && final(self).total == old(self).total,
            final(self).bytes == old(self).bytes,
    {
        if self.downloaded == self.total {
            self.downloaded = 0;
            self.total = 0;
        }
    }

    /// `n` more bytes were fetched (saturating).
    pub fn add_bytes(&mut self, n: u64)
        ensures
            final(self).bytes == if old(self).bytes + n > u64::MAX { u64::MAX as int } else { old(self).bytes + n },
            final(self).downloaded == old(self).downloaded,
            final(self).total == old(self).total,
    {
        self.bytes = self.bytes.saturating_add(n);
    }

    /// Reads and zeroes the byte counter: the speed event for the last second.
    pub fn take_speed(&mut self) -> (r: DownloadEvent)
        ensures
            final(self).bytes == 0,
            final(self).downloaded == old(self).downloaded,
            final(self).total == old(self).total,
            r matches DownloadEvent::Speed { speed } && speed@ == speed_text(old(self).bytes as nat),
    {
        let b = self.bytes;
        self.bytes = 0;
        DownloadEvent::Speed { speed: format_speed(b) }
    }
}

/// `n / d` rounded to the nearest integer, halves to the even neighbour.
pub open spec fn div_round_even(n: nat, d: nat) -> nat
    recommends
        d > 0,
{
    let q = n / d;
    let r = n % d;
    if 2 * r > d || (2 * r == d && q % 2 == 1) { q + 1 } else { q }
}

/// A byte rate as mebibytes per second with two decimals: `"<MB/s> MB/s"`.
pub open spec fn speed_text(bytes: nat) -> Seq<char> {
    let hundredths = div_round_even(bytes * 100, 1048576);
    decimal(hundredths / 100) + "."@ + decimal_padded(hundredths % 100, 2) + " MB/s"@
}

/// Formats a byte rate; see `speed_text`.
pub fn format_speed(bytes: u64) -> (r: String)
    ensures
        r@ == speed_text(bytes as nat),
{
    let n: u128 = bytes as u128 * 100;
    let q: u128 = n / 1048576;
    let rem: u128 = n % 1048576;
    let h: u128 = if 2 * rem > 1048576 || (2 * rem == 1048576 && q % 2 == 1) { q + 1 } else { q };
    assert(h == div_round_even(bytes as nat * 100, 1048576));
    assert(h <= u64::MAX);
    let mut s = String::new();
    push_decimal(&mut s, (h / 100) as u64);
    push_text(&mut s, ".");
    push_decimal_padded(&mut s, (h % 100) as u64, 2);
    push_text(&mut s, " MB/s");
    s
}

/// The page paths of an image index, in page order.
pub open spec fn image_paths(images: Seq<Image>) -> Seq<Seq<char>> {
    images.map_values(|i: Image| i.path@)
}

/// The `urls` field of a token request: the JSON text of the list of page paths, in page
/// order.
pub fn image_token_request(images: &Vec<Image>) -> (r: String)
    ensures
        r@ == json_string_array(image_paths(images@)),
{
    let mut paths: Vec<String> = Vec::new();
    let mut i: usize = 0;
    while i < images.len()
        invariant
            i <= images@.len(),
            paths@.len() == i,
            forall|k: int| 0 <= k < i ==> (#[trigger] paths@[k])@ == images@[k].path@,
        decreases images@.len() - i,
    {
        paths.push(images[i].path.clone());
        i = i + 1;
    }
    assert(paths.deep_view() =~= image_paths(images@));
    match json_strings(&paths) {
        Ok(text) => text,
        Err(_) => String::new(),
    }
}

/// The download URL of a page: `{url}?token={token}`.
pub open spec fn token_url(t: UrlToken) -> Seq<char> {
    t.url@ + "?token="@ + t.token@
}

/// The download URLs of a chapter's pages, in page order.
pub fn image_urls(tokens: &Vec<UrlToken>) -> (r: Vec<String>)
    ensures
        r@.len() == tokens@.len(),
        forall|i: int| 0 <= i < tokens@.len() ==> (#[trigger] r@[i])@ == token_url(tokens@[i]),
{
    let mut out: Vec<String> = Vec::new();
    let mut i: usize = 0;
    while i < tokens.len()
        invariant
            i <= tokens@.len(),
            out@.len() == i,
            forall|k: int| 0 <= k < i ==> (#[trigger] out@[k])@ == token_url(tokens@[k]),
        decreases tokens@.len() - i,
    {
        let mut u = tokens[i].url.clone();
        push_text(&mut u, "?token=");
        push_text(&mut u, tokens[i].token.as_str());
        out.push(u);
        i = i + 1;
    }
    out
}

/// The file name of page `i` of a chapter: the index zero-padded to three digits, `.jpg`.
pub open spec fn page_file_name(i: nat) -> Seq<char> {
    decimal_padded(i, 3) + ".jpg"@
}

/// The file name of page `i`; see `page_file_name`.
pub fn image_file_name(i: u64) -> (r: String)
    ensures
        r@ == page_file_name(i as nat),
{
    let mut s = String::new();
    push_decimal_padded(&mut s, i, 3);
    push_text(&mut s, ".jpg");
    s
}

/// The name of a chapter's directory while it downloads: `.下载中-{title}`.
pub open spec fn temp_dir_name_of(title: Seq<char>) -> Seq<char> {
    ".下载中-"@ + title
}

/// The directory name of a chapter while it downloads; see `temp_dir_name_of`.
pub fn temp_dir_name(title: &str) -> (r: String)
    ensures
        r@ == temp_dir_name_of(title@),
{
    let mut s = String::new();
    push_text(&mut s, ".下载中-");
    push_text(&mut s, title);
    s
}

} // verus!
