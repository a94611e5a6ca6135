//! The vendor's response envelope and the small records read from it.
use vstd::prelude::*;
use vstd::string::*;

verus! {

/// The vendor's envelope `{code, msg, data}` around every payload.
#[derive(Debug, Clone)]
pub struct BiliResponse<T> {
    pub code: i64,
    pub msg: String,
    pub data: Option<T>,
}

/// Why a vendor call gave no payload.
#[derive(Debug, Clone, PartialEq, Eq)]
pub enum VendorError {
    /// The HTTP status was not 200.
    HttpStatus { status: u16, body: String },
    /// The envelope's code was not 0.
    Vendor { code: i64, msg: String },
    /// The envelope had no data.
    NoPayload,
}

/// Accepts HTTP status 200 only; otherwise the error carries the status and the body.
pub fn check_status(status: u16, body: String) -> (r: Result<(), VendorError>)
    ensures
        status == 200 <==> r is Ok,
        r matches Err(e) ==> (e matches VendorError::HttpStatus { status: s, body: b } && s == status && b@ == body@),
{
    if status == 200 {
        Ok(())
    } else {
        Err(VendorError::HttpStatus { status, body })
    }
}

impl<T> BiliResponse<T> {
    /// The payload of an envelope: its data when the code is 0 and data is present.
    pub fn into_data(self) -> (r: Result<T, VendorError>)
        ensures
            self.code != 0 ==> (r matches Err(VendorError::Vendor { code, msg }) && code == self.code && msg@ == self.msg@),
            self.code == 0 && self.data is None ==> r matches Err(VendorError::NoPayload),
            self.code == 0 && self.data is Some ==> (r matches Ok(d) && d == self.data->Some_0),
    {
        if self.code != 0 {
            return Err(VendorError::Vendor { code: self.code, msg: self.msg });
        }
        match self.data {
            Some(d) => Ok(d),
            None => Err(VendorError::NoPayload),
        }
    }
}

/// The first index at or after `start` where `pat` occurs in `s`, or -1.
pub open spec fn find_from(s: Seq<char>, pat: Seq<char>, start: int) -> int
    decreases s.len() + 1 - start,
{
    if start < 0 || start + pat.len() > s.len() {
        -1
    } else if s.subrange(start, start + pat.len() as int) == pat {
        start
    } else {
        find_from(s, pat, start + 1)
    }
}

pub proof fn lemma_find_from(s: Seq<char>, pat: Seq<char>, start: int)
    requires
        0 <= start,
    ensures
        find_from(s, pat, start) == -1 || (start <= find_from(s, pat, start) && find_from(s, pat, start) + pat.len() <= s.len()),
    decreases s.len() + 1 - start,
{
    if !(start + pat.len() > s.len()) && s.subrange(start, start + pat.len() as int) != pat {
        lemma_find_from(s, pat, start + 1);
    }
}

/// Finds `pat` in `s` at or after `start`; see `find_from`.
pub fn find(s: &str, pat: &str, start: usize) -> (r: Option<usize>)
    ensures
        r matches Some(i) ==> i == find_from(s@, pat@, start as int),
        r is None ==> find_from(s@, pat@, start as int) == -1,
{
    let n = s.unicode_len();
    let m = pat.unicode_len();
    let mut p: usize = start;
    while p <= n && m <= n - p
        invariant
            n == s@.len(),
            m == pat@.len(),
            start <= p,
            find_from(s@, pat@, start as int) == find_from(s@, pat@, p as int),
        decreases n + 1 - p,
    {
        let mut j: usize = 0;
        while j < m && s.get_char(p + j) == pat.get_char(j)
            invariant
                n == s@.len(),
                m == pat@.len(),
                p + m <= n,
                j <= m,
                forall|q: int| 0 <= q < j ==> s@[p + q] == pat@[q],
            decreases m - j,
        {
            j = j + 1;
        }
        if j == m {
            assert(s@.subrange(p as int, p + m) =~= pat@);
            return Some(p);
        }
        assert(s@.subrange(p as int, p + m) != pat@) by {
            assert(s@.subrange(p as int, p + m)[j as int] == s@[p + j]);
        }
        p = p + 1;
    }
    None
}

/// The session token in a login redirect URL: what follows the first `SESSDATA=`, up to the
/// next `SESSDATA=` and the first `&` after it, whichever comes first.
pub open spec fn sessdata_of(url: Seq<char>) -> Seq<char> {
    let pat = "SESSDATA="@;
    let a = find_from(url, pat, 0) + pat.len();
    let j = find_from(url, pat, a);
    let e = if j < 0 { url.len() as int } else { j };
    let seg = url.subrange(a, e);
    let k = find_from(seg, "&"@, 0);
    seg.take(if k < 0 { seg.len() as int } else { k })
}

/// Login status as the QR-code poll reports it.
#[derive(Debug, Clone, PartialEq, Eq)]
pub enum QrCodeStatus {
    Complete(String),
    NotScan,
    Scanning,
    Invalid,
    Unknown,
}

/// The QR-code poll's payload.
#[derive(Debug, Clone)]
pub struct QrCodeStatusData {
    pub url: String,
    pub refresh_token: String,
    pub timestamp: i64,
    pub code: i64,
    pub message: String,
}

/// The payload that a new login QR code comes with.
#[derive(Debug, Clone)]
pub struct GenerateQrCodeData {
    pub url: String,
    pub qrcode_key: String,
}

/// A chapter as the vendor describes it in listings.
#[derive(Debug, Clone)]
pub struct EpisodeData {
    pub title: String,
    pub comic_id: i64,
    pub short_title: String,
    pub comic_title: String,
}

impl QrCodeStatusData {
    /// What the poll code means: 0 is complete (with the session token from the URL), 86101
    /// not scanned, 86090 scanned but not confirmed, 86038 expired, anything else unknown.
    pub fn status(&self) -> (r: QrCodeStatus)
        requires
            self.code == 0 ==> find_from(self.url@, "SESSDATA="@, 0) >= 0,
        ensures
            self.code == 0 ==> (r matches QrCodeStatus::Complete(s) && s@ == sessdata_of(self.url@)),
            self.code == 86101 ==> r == QrCodeStatus::NotScan,
            self.code == 86090 ==> r == QrCodeStatus::Scanning,
            self.code == 86038 ==> r == QrCodeStatus::Invalid,
            self.code != 0 && self.code != 86101 && self.code != 86090 && self.code != 86038 ==> r == QrCodeStatus::Unknown,
    {
        if self.code == 0 {
            let url = self.url.as_str();
            let pat = "SESSDATA=";
            proof {
                reveal_strlit("SESSDATA=");
                reveal_strlit("&");
                lemma_find_from(url@, pat@, 0);
            }
            let n = url.unicode_len();
            let i = match find(url, pat, 0) {
                Some(i) => i,
                None => 0,
            };
            let a = i + 9;
            proof {
                lemma_find_from(url@, pat@, a as int);
            }
            let e = match find(url, pat, a) {
                Some(j) => j,
                None => n,
            };
            let seg = url.substring_char(a, e);
            proof {
                lemma_find_from(seg@, "&"@, 0);
            }
            let k = match find(seg, "&", 0) {
                Some(k) => k,
                None => seg.unicode_len(),
            };
            let token = seg.substring_char(0, k);
            assert(token@ =~= sessdata_of(self.url@));
            QrCodeStatus::Complete(String::from_str(token))
        } else if self.code == 86101 {
            QrCodeStatus::NotScan
        } else if self.code == 86090 {
            QrCodeStatus::Scanning
        } else if self.code == 86038 {
            QrCodeStatus::Invalid
        } else {
            QrCodeStatus::Unknown
        }
    }
}

} // verus!
