//! Deriving a black and a white reference for one page size from a corpus of pages.
use vstd::prelude::*;
use crate::detect::{classification, classify_background, is_normalized, normalize, BackgroundKind, RectData};
use crate::raster::Raster;

verus! {

/// Why no reference pair came out of a search.
#[derive(Debug, Clone, PartialEq, Eq)]
pub enum GenerateError {
    /// No page qualified as either reference.
    NoBackground { width: u32, height: u32 },
    /// Only one of the two references was found; it has been kept.
    SingleBackground { width: u32, height: u32 },
}

/// The state of a search for the references of one page size: the first dark and the first
/// light page found, each normalised.
#[derive(Debug)]
pub struct BackgroundSearch {
    pub width: u32,
    pub height: u32,
    pub rect: RectData,
    pub black: Option<Raster>,
    pub white: Option<Raster>,
}

impl BackgroundSearch {
    /// The rectangle fits the page size and every kept reference is a raster of that size.
    pub open spec fn wf(&self) -> bool {
        &&& self.rect.fits(self.width as int, self.height as int)
        &&& (self.black matches Some(b) ==> b.wf() && b.width == self.width && b.height == self.height)
        &&& (self.white matches Some(b) ==> b.wf() && b.width == self.width && b.height == self.height)
    }

    /// Both references have been found.
    pub open spec fn complete(&self) -> bool {
        self.black is Some && self.white is Some
    }

    /// How offering the page `img` to the search `old` gives `new` and the answer `r`: a page
    /// is skipped once both references exist or when its size differs; otherwise a page that
    /// classifies as dark (light) is normalised and kept as the black (white) reference if
    /// none is kept yet, and `r` names what was newly kept.
    pub open spec fn offered(old: BackgroundSearch, new: BackgroundSearch, img: Raster, r: Option<BackgroundKind>) -> bool {
        &&& new.width == old.width && new.height == old.height && new.rect == old.rect
        &&& if old.complete() || img.width != old.width || img.height != old.height {
            r is None && new.black == old.black && new.white == old.white
        } else {
            match classification(img, old.rect) {
                Some(BackgroundKind::Dark) if old.black is None =>
                    r == Some(BackgroundKind::Dark) && new.white == old.white
                    && (new.black matches Some(b) && is_normalized(b, img, old.rect)),
                Some(BackgroundKind::Light) if old.white is None =>
                    r == Some(BackgroundKind::Light) && new.black == old.black
                    && (new.white matches Some(b) && is_normalized(b, img, old.rect)),
                _ => r is None && new.black == old.black && new.white == old.white,
            }
        }
    }

    /// A search for pages of `width` x `height`, tested against `rect`.
    pub fn new(width: u32, height: u32, rect: RectData) -> (r: BackgroundSearch)
        requires
            rect.fits(width as int, height as int),
        ensures
            r.wf(),
            r.width == width && r.height == height && r.rect == rect,
            r.black is None && r.white is None,
    {
        BackgroundSearch { width, height, rect, black: None, white: None }
    }

    /// Whether both references have been found, so that further pages can be skipped.
    pub fn is_complete(&self) -> (r: bool)
        ensures
            r == self.complete(),
    {
        self.black.is_some() && self.white.is_some()
    }

    /// Offers a decoded page; see `offered`.
    pub fn offer(&mut self, img: Raster) -> (r: Option<BackgroundKind>)
        requires
            old(self).wf(),
            img.wf(),
        ensures
            final(self).wf(),
            Self::offered(*old(self), *final(self), img, r),
    {
        if self.is_complete() || img.width != self.width || img.height != self.height {
            return None;
        }
        match classify_background(&img, &self.rect) {
            Some(BackgroundKind::Dark) => {
                if self.black.is_none() {
                    self.black = Some(normalize(&img, &self.rect));
                    Some(BackgroundKind::Dark)
                } else {
                    None
                }
            },
            Some(BackgroundKind::Light) => {
                if self.white.is_none() {
                    self.white = Some(normalize(&img, &self.rect));
                    Some(BackgroundKind::Light)
                } else {
                    None
                }
            },
            None => None,
        }
    }

    /// The outcome of a finished search: both references found, one, or none.
    pub fn finish(&self) -> (r: Result<(), GenerateError>)
        ensures
            self.complete() <==> r is Ok,
            self.black is None && self.white is None
                ==> r == Err::<(), GenerateError>(GenerateError::NoBackground { width: self.width, height: self.height }),
            self.black is Some != self.white is Some
                ==> r == Err::<(), GenerateError>(GenerateError::SingleBackground { width: self.width, height: self.height }),
    {
        if self.black.is_some() && self.white.is_some() {
            Ok(())
        } else if self.black.is_none() && self.white.is_none() {
            Err(GenerateError::NoBackground { width: self.width, height: self.height })
        } else {
            Err(GenerateError::SingleBackground { width: self.width, height: self.height })
        }
    }
}

} // verus!
