//! Plain data carried across the host boundary.
use vstd::prelude::*;
use crate::codec::{base64_decode, base64_decoding, base64_encode, base64_text, decode_rgb, rgb_decoding};
use crate::raster::Raster;

verus! {

/// Size and location of an image file.
#[derive(Debug, Clone)]
pub struct ImageInfo {
    pub width: u32,
    pub height: u32,
    pub path: String,
}

/// An image file in transit: its size and location, and its raw bytes as Base64 text (the
/// file itself, not a re-encoding).
#[derive(Debug, Clone)]
pub struct ImageData {
    pub info: ImageInfo,
    pub base64: String,
}

/// How many pages of a manga directory have one size, with the stored reference pair for
/// that size when there is one.
#[derive(Debug, Clone)]
pub struct MangaDirData {
    pub width: u32,
    pub height: u32,
    pub count: u32,
    pub black_background: Option<ImageData>,
    pub white_background: Option<ImageData>,
}

/// The raster that an image envelope holds: its Base64 text decoded, then its bytes.
pub open spec fn envelope_raster(d: ImageData) -> Option<(u32, u32, Seq<u8>)> {
    match base64_decoding(d.base64@) {
        Some(bytes) => rgb_decoding(bytes),
        None => None,
    }
}

impl ImageData {
    /// The image the envelope carries, decoded to an RGB raster.
    pub fn to_image(&self) -> (r: Result<Raster, String>)
        ensures
            r is Ok <==> envelope_raster(*self) is Some,
            r matches Ok(img) ==> img.wf() && (img.width, img.height, img.data@) == envelope_raster(*self)->Some_0,
    {
        match base64_decode(self.base64.as_str()) {
            Ok(bytes) => decode_rgb(bytes.as_slice()),
            Err(cause) => Err(cause),
        }
    }

    /// The file bytes the envelope carries.
    pub fn file_bytes(&self) -> (r: Result<Vec<u8>, String>)
        ensures
            r is Ok <==> base64_decoding(self.base64@) is Some,
            r matches Ok(b) ==> b@ == base64_decoding(self.base64@)->Some_0,
    {
        base64_decode(self.base64.as_str())
    }

    /// Wraps the bytes of the file at `path`, whose header gave `width` x `height`. Decoding
    /// the Base64 text gives back exactly those bytes.
    pub fn from_file_bytes(path: String, width: u32, height: u32, bytes: &[u8]) -> (r: ImageData)
        ensures
            r.info.path@ == path@,
            r.info.width == width,
            r.info.height == height,
            r.base64@ == base64_text(bytes@),
            base64_decoding(r.base64@) == Some(bytes@),
    {
        let base64 = base64_encode(bytes);
        ImageData { info: ImageInfo { width, height, path }, base64 }
    }
}

} // verus!
