//! Image and text codecs: decoding to RGB rasters, encoding rasters as JPEG or PNG, Base64
//! and JSON text. The encoders and decoders of outside crates do the work; this module fixes
//! what they are handed and how the result is read.
use vstd::prelude::*;
use base64::Engine;
use image::ImageEncoder;
use crate::config::ImageFormat;
use crate::raster::{all_grey, expand_luma, Raster};

verus! {

/// What `image::load_from_memory` followed by `to_rgb8` makes of a byte buffer: width,
/// height and the row-major RGB bytes, or nothing when the bytes are no readable image.
pub uninterp spec fn rgb_decoding(bytes: Seq<u8>) -> Option<(u32, u32, Seq<u8>)>;

/// The PNG file that `image`'s PNG encoder writes for the given 8-bit pixels (one channel
/// when `luma`, else three).
pub uninterp spec fn png_bytes(pixels: Seq<u8>, width: u32, height: u32, luma: bool) -> Seq<u8>;

/// The JPEG file that `jpeg_encoder` writes at `quality` for the given 8-bit pixels (one
/// channel when `luma`, else three).
pub uninterp spec fn jpeg_bytes(pixels: Seq<u8>, width: u16, height: u16, luma: bool, quality: u8) -> Seq<u8>;

/// The quality that pages are stored at as JPEG.
pub const JPEG_QUALITY: u8 = 95;

/// The standard, padded Base64 text of a byte sequence.
pub uninterp spec fn base64_text(bytes: Seq<u8>) -> Seq<char>;

/// The bytes that standard, padded Base64 text stands for, or nothing when it is malformed.
pub uninterp spec fn base64_decoding(text: Seq<char>) -> Option<Seq<u8>>;

/// The compact JSON text of an array of strings.
pub uninterp spec fn json_string_array(items: Seq<Seq<char>>) -> Seq<char>;

/// Relies on `image::load_from_memory` and `DynamicImage::to_rgb8`: the format is guessed
/// from the bytes, and the raster's buffer holds three bytes per pixel.
#[verifier::external_body]
pub(crate) fn decode_rgb(bytes: &[u8]) -> (r: Result<Raster, String>)
    ensures
        r is Ok <==> rgb_decoding(bytes@) is Some,
        r is Ok ==> r->Ok_0.wf(),
        r is Ok ==> (r->Ok_0.width, r->Ok_0.height, r->Ok_0.data@) == rgb_decoding(bytes@)->Some_0,
{
    match image::load_from_memory(bytes) {
        Ok(img) => {
            let rgb = img.to_rgb8();
            Ok(Raster { width: rgb.width(), height: rgb.height(), data: rgb.into_raw() })
        },
        Err(e) => Err(e.to_string()),
    }
}

/// Relies on `image::codecs::png::PngEncoder::write_image`, writing into a byte vector. It
/// panics unless the buffer holds exactly one (L8) or three (Rgb8) bytes per pixel; the PNG
/// encoder refuses a zero width or height and sides of 2^31 or more, and writing into a
/// vector cannot fail.
#[verifier::external_body]
fn png_encode(pixels: &[u8], width: u32, height: u32, luma: bool) -> (r: Result<Vec<u8>, String>)
    requires
        luma ==> pixels@.len() == width * height,
        !luma ==> pixels@.len() == 3 * (width * height),
    ensures
        r is Ok ==> r->Ok_0@ == png_bytes(pixels@, width, height, luma),
        1 <= width < 0x8000_0000 && 1 <= height < 0x8000_0000 ==> r is Ok,
{
    let mut out: Vec<u8> = Vec::new();
    let color = if luma { image::ExtendedColorType::L8 } else { image::ExtendedColorType::Rgb8 };
    match image::codecs::png::PngEncoder::new(&mut out).write_image(pixels, width, height, color) {
        Ok(()) => Ok(out),
        Err(e) => Err(e.to_string()),
    }
}

/// Relies on `jpeg_encoder::Encoder::new` and `Encoder::encode`, writing into a byte vector.
/// The encoder refuses only a zero width or height and a buffer shorter than the pixels;
/// writing into a vector cannot fail.
#[verifier::external_body]
fn jpeg_encode(pixels: &[u8], width: u16, height: u16, luma: bool, quality: u8) -> (r: Result<Vec<u8>, String>)
    requires
        luma ==> pixels@.len() == width * height,
        !luma ==> pixels@.len() == 3 * (width * height),
    ensures
        r is Ok ==> r->Ok_0@ == jpeg_bytes(pixels@, width, height, luma, quality),
        width >= 1 && height >= 1 ==> r is Ok,
{
    let mut out: Vec<u8> = Vec::new();
    let color = if luma { jpeg_encoder::ColorType::Luma } else { jpeg_encoder::ColorType::Rgb };
    match jpeg_encoder::Encoder::new(&mut out, quality).encode(pixels, width, height, color) {
        Ok(()) => Ok(out),
        Err(e) => Err(e.to_string()),
    }
}

/// Relies on `base64::engine::general_purpose::STANDARD.encode`.
#[verifier::external_body]
pub(crate) fn base64_encode(bytes: &[u8]) -> (r: String)
    ensures
        r@ == base64_text(bytes@),
        base64_decoding(r@) == Some(bytes@),
{
    base64::engine::general_purpose::STANDARD.encode(bytes)
}

/// Relies on `base64::engine::general_purpose::STANDARD.decode`.
#[verifier::external_body]
pub(crate) fn base64_decode(text: &str) -> (r: Result<Vec<u8>, String>)
    ensures
        r is Ok <==> base64_decoding(text@) is Some,
        r is Ok ==> r->Ok_0@ == base64_decoding(text@)->Some_0,
{
    match base64::engine::general_purpose::STANDARD.decode(text) {
        Ok(v) => Ok(v),
        Err(e) => Err(e.to_string()),
    }
}

/// Relies on `serde_json::to_string` on a list of strings, which fails only when a
/// `Serialize` impl fails or a map has keys that are not strings: never for a list of strings.
#[verifier::external_body]
pub(crate) fn json_strings(items: &Vec<String>) -> (r: Result<String, String>)
    ensures
        r is Ok,
        r is Ok ==> r->Ok_0@ == json_string_array(items.deep_view()),
{
    match serde_json::to_string(items) {
        Ok(s) => Ok(s),
        Err(e) => Err(e.to_string()),
    }
}

/// Decodes an image file (JPEG or PNG, told apart by its bytes) into an RGB raster.
pub fn decode_image(bytes: &[u8]) -> (r: Result<Raster, DecodeError>)
    ensures
        r is Ok <==> rgb_decoding(bytes@) is Some,
        r matches Ok(img) ==> img.wf() && (img.width, img.height, img.data@) == rgb_decoding(bytes@)->Some_0,
{
    match decode_rgb(bytes) {
        Ok(img) => Ok(img),
        Err(cause) => Err(DecodeError { cause }),
    }
}

/// Why an image could not be decoded: the decoder's message.
#[derive(Debug, Clone, PartialEq, Eq)]
pub struct DecodeError {
    pub cause: String,
}

/// Why an image could not be encoded.
#[derive(Debug, Clone, PartialEq, Eq)]
pub enum EncodeError {
    /// JPEG holds at most 65535 pixels on a side.
    TooLarge { width: u32, height: u32 },
    /// The encoder refused the raster.
    Encoder(String),
}

/// Whether pixels are stored as single-channel luminance: asked for, and every pixel grey.
pub open spec fn stores_luma(data: Seq<u8>, area: nat, optimize: bool) -> bool {
    optimize && all_grey(data, area as int)
}

/// The pixel bytes handed to the encoder: the red channel alone for luminance, else all three.
pub open spec fn encoded_pixels(data: Seq<u8>, area: nat, luma: bool) -> Seq<u8> {
    if luma {
        Seq::new(area, |i: int| data[3 * i])
    } else {
        data
    }
}

/// On a grey raster, the luminance bytes handed to the encoder keep everything: spreading
/// them back to three channels gives the raster's bytes again, so reading the red channel of
/// the decoded luminance gives the input's red channel.
pub proof fn lemma_luma_lossless(data: Seq<u8>, area: nat)
    requires
        data.len() == 3 * area,
        all_grey(data, area as int),
    ensures
        expand_luma(encoded_pixels(data, area, true)) == data,
{
    let plane = encoded_pixels(data, area, true);
    let e = expand_luma(plane);
    assert forall|j: int| 0 <= j < e.len() implies e[j] == data[j] by {
        let i = j / 3;
        assert(0 <= j - 3 * i < 3);
        assert(0 <= i < area);
        assert(plane[i] == data[3 * i]);
        assert(data[3 * i] == data[3 * i + 1] && data[3 * i + 1] == data[3 * i + 2]);
    }
    assert(e =~= data);
}

/// The file that encoding RGB bytes of the given size in `format` yields.
pub open spec fn encoded_file(format: ImageFormat, data: Seq<u8>, width: u32, height: u32, optimize: bool) -> Seq<u8> {
    let area = (width * height) as nat;
    let luma = stores_luma(data, area, optimize);
    let px = encoded_pixels(data, area, luma);
    match format {
        ImageFormat::Png => png_bytes(px, width, height, luma),
        ImageFormat::Jpeg => jpeg_bytes(px, width as u16, height as u16, luma, JPEG_QUALITY),
    }
}

/// The sizes a format can store: at least one pixel on each side, at most 65535 for JPEG and
/// below 2^31 for PNG.
pub open spec fn encodable(format: ImageFormat, width: u32, height: u32) -> bool {
    &&& width >= 1 && height >= 1
    &&& match format {
        ImageFormat::Jpeg => width <= 65535 && height <= 65535,
        ImageFormat::Png => width < 0x8000_0000 && height < 0x8000_0000,
    }
}

/// The file extension that goes with an output format.
pub open spec fn format_extension(format: ImageFormat) -> Seq<char> {
    match format {
        ImageFormat::Jpeg => "jpg"@,
        ImageFormat::Png => "png"@,
    }
}

/// The file extension that goes with an output format.
pub fn extension(format: ImageFormat) -> (r: &'static str)
    ensures
        r@ == format_extension(format),
{
    proof {
        reveal_strlit("jpg");
        reveal_strlit("png");
    }
    match format {
        ImageFormat::Jpeg => "jpg",
        ImageFormat::Png => "png",
    }
}

/// Encodes a raster as JPEG (at `JPEG_QUALITY`) or PNG. With `optimize`, a raster whose
/// pixels are all grey is stored as single-channel luminance. Every size the format can store
/// is encoded.
pub fn encode_image(img: &Raster, format: ImageFormat, optimize: bool) -> (r: Result<Vec<u8>, EncodeError>)
    requires
        img.wf(),
    ensures
        format == ImageFormat::Jpeg && (img.width > 65535 || img.height > 65535)
            ==> r == Err::<Vec<u8>, EncodeError>(EncodeError::TooLarge { width: img.width, height: img.height }),
        r is Ok ==> r->Ok_0@ == encoded_file(format, img.data@, img.width, img.height, optimize),
        encodable(format, img.width, img.height) ==> r is Ok,
        r matches Err(EncodeError::TooLarge { .. }) ==> format == ImageFormat::Jpeg && (img.width > 65535 || img.height > 65535),
{
    if format == ImageFormat::Jpeg && (img.width > 65535 || img.height > 65535) {
        return Err(EncodeError::TooLarge { width: img.width, height: img.height });
    }
    let luma = optimize && img.is_grey();
    let plane: Vec<u8> = if luma { img.luma_plane() } else { img.data.clone() };
    assert(plane@ =~= encoded_pixels(img.data@, img.area(), luma));
    let encoded = match format {
        ImageFormat::Png => png_encode(plane.as_slice(), img.width, img.height, luma),
        ImageFormat::Jpeg => jpeg_encode(plane.as_slice(), img.width as u16, img.height as u16, luma, JPEG_QUALITY),
    };
    match encoded {
        Ok(bytes) => Ok(bytes),
        Err(msg) => Err(EncodeError::Encoder(msg)),
    }
}

} // verus!
