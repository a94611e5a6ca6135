//! Inverse compositing: recovering the pixels under a semi-transparent watermark
//! from a black and a white reference of the same size.
use vstd::prelude::*;
use crate::codec::{decode_rgb, encodable, encode_image, encoded_file, rgb_decoding, EncodeError};
use crate::config::ImageFormat;
use crate::raster::Raster;
use crate::types::{envelope_raster, ImageData};

verus! {

/// One restored channel value: `(i - b) / ((w - b) / 255) + bk`, rounded to the nearest
/// integer (halves away from zero) and clamped to `[0, 255]`. When `w == b` the quotient is
/// infinite (saturating to 255 when `i > b`) or undefined (0).
pub open spec fn unmix(i: int, b: int, w: int, bk: int) -> u8 {
    let d = w - b;
    let n = (i - b) * 255;
    if d == 0 {
        if n > 0 { 255 } else { 0 }
    } else {
        let num = if d > 0 { n + bk * d } else { -(n + bk * d) };
        let den = if d > 0 { d } else { -d };
        if num <= 0 {
            0
        } else {
            let q = (2 * num + den) / (2 * den);
            if q > 255 { 255 } else { q as u8 }
        }
    }
}

/// The bytes of a raster after removal against a black and a white reference: each byte is
/// restored from the matching bytes of the references, with the black reference's first
/// pixel as the background colour.
pub open spec fn removed(img: Seq<u8>, black: Seq<u8>, white: Seq<u8>) -> Seq<u8> {
    Seq::new(img.len(), |j: int| unmix(img[j] as int, black[j] as int, white[j] as int, black[j % 3] as int))
}

/// Restores one channel value; see `unmix`.
pub fn unmix_channel(i: u8, b: u8, w: u8, bk: u8) -> (r: u8)
    ensures
        r == unmix(i as int, b as int, w as int, bk as int),
{
    let d: i64 = w as i64 - b as i64;
    let n: i64 = (i as i64 - b as i64) * 255;
    if d == 0 {
        if n > 0 { 255 } else { 0 }
    } else {
        proof {
            assert(-65025 <= bk * d <= 65025) by (nonlinear_arith)
                requires
                    0 <= bk <= 255,
                    -255 <= d <= 255,
            ;
        }
        let bkd: i64 = bk as i64 * d;
        let num: i64 = if d > 0 { n + bkd } else { -(n + bkd) };
        let den: i64 = if d > 0 { d } else { -d };
        if num <= 0 {
            0
        } else {
            let q: u64 = (2 * num as u64 + den as u64) / (2 * den as u64);
            if q > 255 { 255 } else { q as u8 }
        }
    }
}

/// Removes the watermark from `img` against the `black` and `white` references. An image
/// whose size differs from the references is left as it is.
pub fn remove_image_watermark(black: &Raster, white: &Raster, img: &mut Raster)
    requires
        black.wf(),
        white.wf(),
        old(img).wf(),
        black.width == white.width,
        black.height == white.height,
    ensures
        final(img).width == old(img).width,
        final(img).height == old(img).height,
        final(img).wf(),
        old(img).width == white.width && old(img).height == white.height
            ==> final(img).data@ == removed(old(img).data@, black.data@, white.data@),
        !(old(img).width == white.width && old(img).height == white.height)
            ==> final(img).data@ == old(img).data@,
{
    if img.width != white.width || img.height != white.height {
        return;
    }
    let len = img.data.len();
    let mut out: Vec<u8> = Vec::with_capacity(len);
    let mut j: usize = 0;
    while j < len
        invariant
            len == img.data@.len(),
            len == black.data@.len(),
            len == white.data@.len(),
            j <= len,
            out@.len() == j,
            forall|k: int| 0 <= k < j ==> #[trigger] out@[k] == removed(img.data@, black.data@, white.data@)[k],
        decreases len - j,
    {
        let v = unmix_channel(img.data[j], black.data[j], white.data[j], black.data[j % 3]);
        out.push(v);
        j = j + 1;
    }
    assert(out@ =~= removed(img.data@, black.data@, white.data@));
    img.data = out;
}

/// Against a pure black (all 0) and a pure white (all 255) reference, a channel comes back
/// unchanged.
pub proof fn lemma_unmix_identity(i: u8)
    ensures
        unmix(i as int, 0, 255, 0) == i,
{
    let n = (i as int) * 255;
    assert((2 * n + 255) / 510int == i as int) by (nonlinear_arith)
        requires
            n == (i as int) * 255,
            0 <= i <= 255,
    ;
}

/// Removal against references that are 0 everywhere (black) and 255 everywhere (white) is
/// the identity.
pub proof fn lemma_removal_identity(img: Seq<u8>, black: Seq<u8>, white: Seq<u8>)
    requires
        black.len() == img.len(),
        white.len() == img.len(),
        forall|j: int| 0 <= j < black.len() ==> #[trigger] black[j] == 0,
        forall|j: int| 0 <= j < white.len() ==> #[trigger] white[j] == 255,
    ensures
        removed(img, black, white) == img,
{
    let r = removed(img, black, white);
    assert forall|j: int| 0 <= j < img.len() implies r[j] == img[j] by {
        assert(black[j] == 0);
        assert(white[j] == 255);
        assert(0 <= j % 3 < 3);
        assert(black[j % 3] == 0);
        lemma_unmix_identity(img[j]);
    }
    assert(r =~= img);
}

/// A black and a white reference for one page size.
#[derive(Debug)]
pub struct BackgroundPair {
    pub width: u32,
    pub height: u32,
    pub black: Raster,
    pub white: Raster,
}

impl BackgroundPair {
    /// Both references are well-formed rasters of the pair's size.
    pub open spec fn wf(&self) -> bool {
        &&& self.black.wf()
        &&& self.white.wf()
        &&& self.black.width == self.width && self.white.width == self.width
        &&& self.black.height == self.height && self.white.height == self.height
    }
}

/// The index of the pair registered last for the size `(w, h)`.
pub open spec fn latest_index(pairs: Seq<BackgroundPair>, w: u32, h: u32) -> Option<int>
    decreases pairs.len(),
{
    if pairs.len() == 0 {
        None
    } else if pairs.last().width == w && pairs.last().height == h {
        Some(pairs.len() - 1)
    } else {
        latest_index(pairs.drop_last(), w, h)
    }
}

/// What `latest_index` finds has the size asked for, and no later pair has it.
pub proof fn lemma_latest_index(pairs: Seq<BackgroundPair>, w: u32, h: u32)
    ensures
        latest_index(pairs, w, h) is Some <==> exists|j: int| 0 <= j < pairs.len() && (#[trigger] pairs[j]).width == w && pairs[j].height == h,
        latest_index(pairs, w, h) matches Some(k) ==> 0 <= k < pairs.len() && pairs[k].width == w && pairs[k].height == h
            && forall|j: int| k < j < pairs.len() ==> !((#[trigger] pairs[j]).width == w && pairs[j].height == h),
    decreases pairs.len(),
{
    if pairs.len() > 0 {
        lemma_latest_index(pairs.drop_last(), w, h);
        if !(pairs.last().width == w && pairs.last().height == h) {
            if exists|j: int| 0 <= j < pairs.len() && (#[trigger] pairs[j]).width == w && pairs[j].height == h {
                let j = choose|j: int| 0 <= j < pairs.len() && (#[trigger] pairs[j]).width == w && pairs[j].height == h;
                assert(pairs.drop_last()[j] == pairs[j]);
            }
            if latest_index(pairs, w, h) is Some {
                let k = latest_index(pairs, w, h)->Some_0;
                assert(pairs.drop_last()[k] == pairs[k]);
                assert forall|j: int| k < j < pairs.len() implies !((#[trigger] pairs[j]).width == w && pairs[j].height == h) by {
                    if j < pairs.len() - 1 {
                        assert(pairs.drop_last()[j] == pairs[j]);
                    }
                }
            }
        }
    }
}

/// Reference pairs keyed by page size; a later pair for a size replaces an earlier one.
#[derive(Debug)]
pub struct Backgrounds {
    pub pairs: Vec<BackgroundPair>,
}

/// Why preparing the references or removing a watermark failed.
#[derive(Debug, Clone, PartialEq, Eq)]
pub enum RemoveError {
    /// A black reference could not be decoded.
    BlackUnreadable { path: String, cause: String },
    /// A white reference could not be decoded.
    WhiteUnreadable { path: String, cause: String },
    /// The two references of a pair differ in size.
    SizeMismatch { black_width: u32, black_height: u32, white_width: u32, white_height: u32 },
    /// A page could not be decoded.
    DecodeFailed(String),
    /// A page could not be encoded.
    EncodeFailed(EncodeError),
}

/// Both envelopes of a pair decode, to rasters of one size.
pub open spec fn pair_ok(p: (ImageData, ImageData)) -> bool {
    let b = envelope_raster(p.0);
    let w = envelope_raster(p.1);
    &&& b is Some
    &&& w is Some
    &&& b->Some_0.0 == w->Some_0.0
    &&& b->Some_0.1 == w->Some_0.1
}

/// The error that a failing pair gives: its black reference first, then its white one, then
/// their sizes.
pub open spec fn pair_error_matches(p: (ImageData, ImageData), e: RemoveError) -> bool {
    let b = envelope_raster(p.0);
    let w = envelope_raster(p.1);
    if b is None {
        e matches RemoveError::BlackUnreadable { path, .. } && path@ == p.0.info.path@
    } else if w is None {
        e matches RemoveError::WhiteUnreadable { path, .. } && path@ == p.1.info.path@
    } else {
        e == RemoveError::SizeMismatch {
            black_width: b->Some_0.0,
            black_height: b->Some_0.1,
            white_width: w->Some_0.0,
            white_height: w->Some_0.1,
        }
    }
}

/// The stored pair `q` holds the rasters of the envelope pair `p`.
pub open spec fn holds_pair(q: BackgroundPair, p: (ImageData, ImageData)) -> bool {
    let b = envelope_raster(p.0)->Some_0;
    let w = envelope_raster(p.1)->Some_0;
    &&& q.wf()
    &&& q.width == b.0 && q.height == b.1
    &&& q.black.data@ == b.2
    &&& q.white.data@ == w.2
}

impl Backgrounds {
    /// Every stored pair is well formed.
    pub open spec fn wf(&self) -> bool {
        forall|i: int| 0 <= i < self.pairs@.len() ==> (#[trigger] self.pairs@[i]).wf()
    }

    /// Decodes each envelope pair into a reference pair. Fails on the first pair with an
    /// unreadable reference or with references of different sizes.
    pub fn from_envelopes(pairs: &Vec<(ImageData, ImageData)>) -> (r: Result<Backgrounds, RemoveError>)
        ensures
            r is Ok <==> forall|k: int| 0 <= k < pairs@.len() ==> pair_ok(#[trigger] pairs@[k]),
            r matches Ok(reg) ==> (reg.wf() && reg.pairs@.len() == pairs@.len()
                && forall|k: int| 0 <= k < pairs@.len() ==> holds_pair(#[trigger] reg.pairs@[k], pairs@[k])),
            r matches Err(e) ==> exists|k: int| 0 <= k < pairs@.len() && !pair_ok(#[trigger] pairs@[k])
                && pair_error_matches(pairs@[k], e)
                && forall|j: int| 0 <= j < k ==> pair_ok(#[trigger] pairs@[j]),
    {
        let mut out: Vec<BackgroundPair> = Vec::new();
        let mut i: usize = 0;
        while i < pairs.len()
            invariant
                i <= pairs@.len(),
                out@.len() == i,
                forall|j: int| 0 <= j < i ==> pair_ok(#[trigger] pairs@[j]),
                forall|j: int| 0 <= j < i ==> holds_pair(#[trigger] out@[j], pairs@[j]),
            decreases pairs@.len() - i,
        {
            let black = match pairs[i].0.to_image() {
                Ok(img) => img,
                Err(cause) => {
                    return Err(RemoveError::BlackUnreadable { path: pairs[i].0.info.path.clone(), cause });
                },
            };
            let white = match pairs[i].1.to_image() {
                Ok(img) => img,
                Err(cause) => {
                    return Err(RemoveError::WhiteUnreadable { path: pairs[i].1.info.path.clone(), cause });
                },
            };
            if black.width != white.width || black.height != white.height {
                return Err(RemoveError::SizeMismatch {
                    black_width: black.width,
                    black_height: black.height,
                    white_width: white.width,
                    white_height: white.height,
                });
            }
            out.push(BackgroundPair { width: black.width, height: black.height, black, white });
            i = i + 1;
        }
        let reg = Backgrounds { pairs: out };
        assert forall|k: int| 0 <= k < reg.pairs@.len() implies (#[trigger] reg.pairs@[k]).wf() by {
            assert(holds_pair(reg.pairs@[k], pairs@[k]));
        }
        Ok(reg)
    }

    /// The index of the pair registered last for the size `(w, h)`, if any.
    pub fn lookup(&self, w: u32, h: u32) -> (r: Option<usize>)
        ensures
            r matches Some(k) ==> latest_index(self.pairs@, w, h) == Some(k as int),
            r is None ==> latest_index(self.pairs@, w, h) is None,
    {
        let mut i: usize = self.pairs.len();
        assert(self.pairs@.take(i as int) =~= self.pairs@);
        while i > 0
            invariant
                i <= self.pairs@.len(),
                latest_index(self.pairs@, w, h) == latest_index(self.pairs@.take(i as int), w, h),
            decreases i,
        {
            let ghost prefix = self.pairs@.take(i as int);
            assert(prefix.drop_last() =~= self.pairs@.take(i - 1));
            if self.pairs[i - 1].width == w && self.pairs[i - 1].height == h {
                return Some(i - 1);
            }
            i = i - 1;
        }
        assert(self.pairs@.take(0) =~= Seq::<BackgroundPair>::empty());
        None
    }

    /// Whether a page of size `(w, h)` has a reference pair, so that its watermark is removed
    /// rather than the page copied as it is.
    pub fn needs_removal(&self, w: u32, h: u32) -> (r: bool)
        ensures
            r == latest_index(self.pairs@, w, h) is Some,
    {
        self.lookup(w, h).is_some()
    }
}

/// What becomes of one page.
#[derive(Debug)]
pub enum PageOutput {
    /// No reference pair has the page's size: the file is copied byte for byte.
    Copied,
    /// The file bytes of the page with its watermark removed.
    Encoded(Vec<u8>),
}

/// Removes the watermark from an encoded page: decodes it, applies the reference pair of
/// its size, and encodes the result in `format`. A page of a size with no pair is copied; a
/// decodable page of a size the format can store always comes out encoded.
pub fn remove_page_watermark(reg: &Backgrounds, bytes: &[u8], format: ImageFormat, optimize: bool) -> (r: Result<PageOutput, RemoveError>)
    requires
        reg.wf(),
    ensures
        rgb_decoding(bytes@) is None <==> r matches Err(RemoveError::DecodeFailed(_)),
        rgb_decoding(bytes@) matches Some(d) ==> {
            match latest_index(reg.pairs@, d.0, d.1) {
                None => r matches Ok(PageOutput::Copied),
                Some(k) => {
                    let out = removed(d.2, reg.pairs@[k].black.data@, reg.pairs@[k].white.data@);
                    &&& (format == ImageFormat::Jpeg && (d.0 > 65535 || d.1 > 65535) ==>
                        r == Err::<PageOutput, RemoveError>(RemoveError::EncodeFailed(EncodeError::TooLarge { width: d.0, height: d.1 })))
                    &&& (r is Ok ==> (r matches Ok(PageOutput::Encoded(file)) && file@ == encoded_file(format, out, d.0, d.1, optimize)))
                    &&& (r is Err ==> r matches Err(RemoveError::EncodeFailed(_)))
                    &&& (encodable(format, d.0, d.1) ==> r is Ok)
                    &&& (r matches Err(RemoveError::EncodeFailed(EncodeError::TooLarge { .. }))
                        ==> format == ImageFormat::Jpeg && (d.0 > 65535 || d.1 > 65535))
                },
            }
        },
{
    let mut img = match decode_rgb(bytes) {
        Ok(img) => img,
        Err(cause) => {
            return Err(RemoveError::DecodeFailed(cause));
        },
    };
    match reg.lookup(img.width, img.height) {
        None => Ok(PageOutput::Copied),
        Some(k) => {
            proof {
                lemma_latest_index(reg.pairs@, img.width, img.height);
                assert(reg.pairs@[k as int].wf());
            }
            let pair = &reg.pairs[k];
            remove_image_watermark(&pair.black, &pair.white, &mut img);
            match encode_image(&img, format, optimize) {
                Ok(file) => Ok(PageOutput::Encoded(file)),
                Err(e) => Err(RemoveError::EncodeFailed(e)),
            }
        },
    }
}

/// Every reference pair found for a size has a black and a white reference of exactly that
/// size.
pub proof fn lemma_registered_sizes(reg: Backgrounds, w: u32, h: u32)
    requires
        reg.wf(),
        latest_index(reg.pairs@, w, h) is Some,
    ensures
        ({
            let q = reg.pairs@[latest_index(reg.pairs@, w, h)->Some_0];
            q.black.width == w && q.white.width == w && q.black.height == h && q.white.height == h
        }),
{
    lemma_latest_index(reg.pairs@, w, h);
    let k = latest_index(reg.pairs@, w, h)->Some_0;
    assert(reg.pairs@[k].wf());
}

} // verus!
