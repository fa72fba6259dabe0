//! Decoded images as plain RGBA8 buffers, and the calls into the `image`
//! crate that decode, resample and encode them.
use vstd::prelude::*;

verus! {

/// Bytes per RGBA8 pixel.
pub const CHANNELS: u32 = 4;

/// Largest side, in pixels, that the WebP encoder accepts.
pub const WEBP_MAX_SIDE: u32 = 16384;

/// An image as 8-bit RGBA pixels, row by row, top row first.
pub struct PixelBuffer {
    pub width: u32,
    pub height: u32,
    pub pixels: Vec<u8>,
}

/// Number of bytes that a `width` x `height` RGBA8 image occupies.
pub open spec fn rgba_len(width: nat, height: nat) -> nat {
    4 * width * height
}

/// What an image is to the contracts: width, height and RGBA8 pixels.
pub type PageView = (u32, u32, Seq<u8>);

impl View for PixelBuffer {
    type V = PageView;

    open spec fn view(&self) -> PageView {
        (self.width, self.height, self.pixels@)
    }
}

/// The views of `images`, in order.
pub open spec fn views(images: Seq<PixelBuffer>) -> Seq<PageView> {
    images.map_values(|p: PixelBuffer| p@)
}

/// A page view holds one RGBA8 quadruple per pixel.
pub open spec fn page_wf(p: PageView) -> bool {
    p.2.len() == rgba_len(p.0 as nat, p.1 as nat)
}

impl PixelBuffer {
    /// The buffer holds exactly one RGBA8 quadruple per pixel.
    pub open spec fn wf(&self) -> bool {
        page_wf(self@)
    }
}

/// The RGBA8 image (width, height, pixels) that `image::load_from_memory`
/// decodes from `bytes`, or `None` where it reports an error.
pub uninterp spec fn decoded_rgba(bytes: Seq<u8>) -> Option<(u32, u32, Seq<u8>)>;

/// The pixels that a Lanczos3 resampling of a `width` x `height` RGBA8 image
/// to `new_width` x `new_height` produces.
pub uninterp spec fn lanczos_resized(
    pixels: Seq<u8>,
    width: u32,
    height: u32,
    new_width: u32,
    new_height: u32,
) -> Seq<u8>;

/// The image (width, height, pixels) that `DynamicImage::thumbnail` makes of a
/// `width` x `height` RGBA8 image for the bounding box `max_width` x `max_height`.
pub uninterp spec fn thumbnail_of(
    pixels: Seq<u8>,
    width: u32,
    height: u32,
    max_width: u32,
    max_height: u32,
) -> (u32, u32, Seq<u8>);

/// The bytes of the lossless WebP encoding of a `width` x `height` RGBA8 image.
pub uninterp spec fn webp_lossless(pixels: Seq<u8>, width: u32, height: u32) -> Seq<u8>;

#[verifier::external_type_specification]
#[verifier::external_body]
pub struct ExImageError(image::ImageError);

/// Relies on `image::load_from_memory` followed by `DynamicImage::into_rgba8`:
/// the result depends on the bytes alone, and an RGBA8 buffer that the crate
/// builds holds four bytes per pixel.
#[verifier::external_body]
pub(crate) fn decode_rgba(bytes: &Vec<u8>) -> (r: Option<PixelBuffer>)
    ensures
        r is None <==> decoded_rgba(bytes@) is None,
        r matches Some(p) ==> p.wf() && decoded_rgba(bytes@) == Some(
            (p.width, p.height, p.pixels@),
        ),
{
    match image::load_from_memory(bytes) {
        Ok(img) => {
            let rgba = img.into_rgba8();
            Some(PixelBuffer { width: rgba.width(), height: rgba.height(), pixels: rgba.into_raw() })
        },
        Err(_) => None,
    }
}

/// Relies on `image::imageops::resize` with `FilterType::Lanczos3`: the result
/// has the requested size, and a resize to the image's own size copies it.
#[verifier::external_body]
pub(crate) fn resize_exact(p: &PixelBuffer, new_width: u32, new_height: u32) -> (r: PixelBuffer)
    requires
        p.wf(),
        rgba_len(new_width as nat, new_height as nat) <= usize::MAX,
    ensures
        r.wf(),
        r.width == new_width,
        r.height == new_height,
        r.pixels@ == lanczos_resized(p.pixels@, p.width, p.height, new_width, new_height),
        p.width > 0 && p.height > 0 && new_width == p.width && new_height == p.height
            ==> r.pixels@ == p.pixels@,
{
    let src = image::RgbaImage::from_raw(p.width, p.height, p.pixels.clone()).unwrap();
    let out = image::imageops::resize(&src, new_width, new_height, image::imageops::FilterType::Lanczos3);
    PixelBuffer { width: out.width(), height: out.height(), pixels: out.into_raw() }
}

/// Relies on `DynamicImage::thumbnail`: it scales the image to fit the box,
/// each side rounded from one common scale factor and at least one pixel.
#[verifier::external_body]
pub(crate) fn thumbnail(p: &PixelBuffer, max_width: u32, max_height: u32) -> (r: PixelBuffer)
    requires
        p.wf(),
        max_width > 0,
        max_height > 0,
    ensures
        r.wf(),
        (r.width, r.height, r.pixels@) == thumbnail_of(
            p.pixels@,
            p.width,
            p.height,
            max_width,
            max_height,
        ),
        1 <= r.width <= max_width,
        1 <= r.height <= max_height,
        p.width > 0 && p.height > 0 ==> -(p.width + p.height) < r.width * p.height - r.height
            * p.width < p.width + p.height,
{
    let src = image::RgbaImage::from_raw(p.width, p.height, p.pixels.clone()).unwrap();
    let out = image::DynamicImage::ImageRgba8(src).thumbnail(max_width, max_height).into_rgba8();
    PixelBuffer { width: out.width(), height: out.height(), pixels: out.into_raw() }
}

/// Relies on `codecs::webp::WebPEncoder::new_lossless` and its `encode` on
/// RGBA8 data: it fails only where a side is zero or over 16384 pixels.
#[verifier::external_body]
pub(crate) fn webp_encode(p: &PixelBuffer) -> (r: Result<Vec<u8>, image::ImageError>)
    requires
        p.wf(),
    ensures
        r is Ok <==> (1 <= p.width <= WEBP_MAX_SIDE && 1 <= p.height <= WEBP_MAX_SIDE),
        r matches Ok(v) ==> v@ == webp_lossless(p.pixels@, p.width, p.height),
{
    let mut data = Vec::new();
    let encoder = image::codecs::webp::WebPEncoder::new_lossless(&mut data);
    encoder.encode(&p.pixels, p.width, p.height, image::ExtendedColorType::Rgba8)?;
    Ok(data)
}

/// Relies on the `Display` impl of `image::ImageError` for its message.
#[verifier::external_body]
pub(crate) fn image_error_message(e: &image::ImageError) -> String {
    e.to_string()
}

} // verus!
