//! Frame preparation: raw RGB and RGBA images, and the steps that turn a
//! composited canvas into the bytes a device shows (crop, resize, rotation,
//! JPEG or PNG encoding).
//!
//! Pixels are stored row by row, left to right, each pixel as its channel
//! bytes in order. The pixel operations themselves are those of the `image`
//! and `fast_image_resize` crates.
use vstd::prelude::*;

use crate::display_loop::copy_bytes;
use crate::driver::{driver_capability, driver_info, DisplayDriver};
use crate::types::{DeviceInfo, DisplayCapability, DisplayFrame, Error, Resolution, Rotation};

verus! {

/// Default JPEG encoding quality (0-100).
pub const DEFAULT_JPEG_QUALITY: u8 = 85;

/// Channel `c` of pixel (`x`, `y`) of an RGB image `width` pixels wide.
pub open spec fn rgb_px(pixels: Seq<u8>, width: int, x: int, y: int, c: int) -> u8 {
    pixels[(y * width + x) * 3 + c]
}

/// The byte length of an RGB image.
pub open spec fn rgb_len(width: u32, height: u32) -> int {
    width * height * 3
}

/// The byte length of an RGBA image.
pub open spec fn rgba_len(width: u32, height: u32) -> int {
    width * height * 4
}

/// The dimensions of an image of `width` x `height` after `rotation`.
pub open spec fn rotated_dims(width: u32, height: u32, rotation: Rotation) -> (u32, u32) {
    match rotation {
        Rotation::Deg90 | Rotation::Deg270 => (height, width),
        _ => (width, height),
    }
}

/// The pixels of an RGB image rotated clockwise by `rotation`: after a
/// quarter turn, pixel (x, y) of the source lands at (h - 1 - y, x); after
/// a half turn at (w - 1 - x, h - 1 - y); after three quarters at
/// (y, w - 1 - x).
pub open spec fn rotated_pixels(width: u32, height: u32, pixels: Seq<u8>, rotation: Rotation) -> Seq<
    u8,
> {
    let w = width as int;
    let h = height as int;
    match rotation {
        Rotation::Deg0 => pixels,
        Rotation::Deg90 => Seq::new(
            (w * h * 3) as nat,
            |i: int| rgb_px(pixels, w, (i / 3) / h, h - 1 - (i / 3) % h, i % 3),
        ),
        Rotation::Deg180 => Seq::new(
            (w * h * 3) as nat,
            |i: int| rgb_px(pixels, w, w - 1 - (i / 3) % w, h - 1 - (i / 3) / w, i % 3),
        ),
        Rotation::Deg270 => Seq::new(
            (w * h * 3) as nat,
            |i: int| rgb_px(pixels, w, w - 1 - (i / 3) / h, (i / 3) % h, i % 3),
        ),
    }
}

/// The crop rectangle `image::imageops::crop_imm` settles on: the corner is
/// clamped into the image and the size to what remains of it.
pub open spec fn clamped_crop(width: u32, height: u32, x: u32, y: u32, cw: u32, ch: u32) -> (
    u32,
    u32,
    u32,
    u32,
) {
    let cx = if x <= width {
        x
    } else {
        width
    };
    let cy = if y <= height {
        y
    } else {
        height
    };
    let w = if cw <= width - cx {
        cw
    } else {
        (width - cx) as u32
    };
    let h = if ch <= height - cy {
        ch
    } else {
        (height - cy) as u32
    };
    (cx, cy, w, h)
}

/// The pixels of the `cw` x `ch` part of an RGB image whose top left
/// corner is (`cx`, `cy`).
pub open spec fn cropped_pixels(width: u32, pixels: Seq<u8>, cx: u32, cy: u32, cw: u32, ch: u32) -> Seq<
    u8,
> {
    Seq::new(
        (cw * ch * 3) as nat,
        |i: int| rgb_px(pixels, width as int, cx + (i / 3) % (cw as int), cy + (i / 3) / (cw as int), i % 3),
    )
}

/// The RGB pixels of an RGBA image: each pixel's alpha byte dropped.
pub open spec fn rgb_of_rgba(rgba: Seq<u8>) -> Seq<u8> {
    Seq::new((rgba.len() / 4 * 3) as nat, |i: int| rgba[(i / 3) * 4 + i % 3])
}

/// The RGB image `fast_image_resize`'s Catmull-Rom convolution makes of
/// `pixels` (`width` x `height`) at `target_width` x `target_height`.
pub uninterp spec fn resized(
    width: u32,
    height: u32,
    pixels: Seq<u8>,
    target_width: u32,
    target_height: u32,
) -> Seq<u8>;

/// The image `pixels` (`width` x `height`) brought to the target size: the
/// image itself when it already has that size, else its resize.
pub open spec fn resize_stage(
    width: u32,
    height: u32,
    pixels: Seq<u8>,
    target_width: u32,
    target_height: u32,
) -> Seq<u8> {
    if width == target_width && height == target_height {
        pixels
    } else {
        resized(width, height, pixels, target_width, target_height)
    }
}

/// The bytes of the baseline JPEG that `image`'s `JpegEncoder` writes for an
/// RGB image at a quality.
pub uninterp spec fn jpeg_bytes(width: u32, height: u32, rgb: Seq<u8>, quality: u8) -> Seq<u8>;

/// The bytes of the PNG that `image` writes for an RGBA image.
pub uninterp spec fn png_bytes(width: u32, height: u32, rgba: Seq<u8>) -> Seq<u8>;

/// The PNG signature that starts every PNG file.
pub open spec fn png_signature() -> Seq<u8> {
    seq![137u8, 80u8, 78u8, 71u8, 13u8, 10u8, 26u8, 10u8]
}

/// Whether the JPEG encoder takes an image of these dimensions: both sides
/// from 1 to 65535 pixels.
pub open spec fn jpeg_dims_ok(width: u32, height: u32) -> bool {
    1 <= width <= 65535 && 1 <= height <= 65535
}

/// The JPEG start-of-image marker.
pub open spec fn jpeg_soi() -> Seq<u8> {
    seq![0xFFu8, 0xD8u8]
}

/// An RGB image: `width * height` pixels of three bytes each.
pub struct RgbFrame {
    width: u32,
    height: u32,
    pixels: Vec<u8>,
}

impl RgbFrame {
    #[verifier::type_invariant]
    spec fn wf(self) -> bool {
        self.pixels@.len() == rgb_len(self.width, self.height)
    }

    pub closed spec fn spec_width(&self) -> u32 {
        self.width
    }

    pub closed spec fn spec_height(&self) -> u32 {
        self.height
    }

    pub closed spec fn spec_pixels(&self) -> Seq<u8> {
        self.pixels@
    }

    /// An image from raw pixels, when they are exactly `width * height`
    /// pixels.
    pub fn from_raw(width: u32, height: u32, pixels: Vec<u8>) -> (r: Option<Self>)
        ensures
            r is Some <==> pixels@.len() == rgb_len(width, height),
            r matches Some(f) ==> f.spec_width() == width && f.spec_height() == height
                && f.spec_pixels() == pixels@,
    {
        let w = width as u64;
        let h = height as u64;
        assert(w * h <= 0xffff_ffff_ffff_ffff) by (nonlinear_arith)
            requires
                w <= 0xffff_ffff,
                h <= 0xffff_ffff,
        ;
        let wh = w * h;
        assert(wh == width * height);
        if wh > (usize::MAX / 3) as u64 {
            proof {
                let m = usize::MAX as int;
                assert(wh * 3 > m) by (nonlinear_arith)
                    requires
                        wh > m / 3,
                        m >= 0,
                ;
                assert(pixels@.len() == pixels.len());
            }
            return None;
        }
        if pixels.len() as u64 == wh * 3 {
            Some(RgbFrame { width, height, pixels })
        } else {
            None
        }
    }

    /// An image of one colour.
    pub fn from_pixel(width: u32, height: u32, rgb: [u8; 3]) -> (f: Self)
        requires
            rgb_len(width, height) <= usize::MAX,
        ensures
            f.spec_width() == width,
            f.spec_height() == height,
            f.spec_pixels().len() == rgb_len(width, height),
            forall|i: int| 0 <= i < f.spec_pixels().len() ==> #[trigger] f.spec_pixels()[i] == rgb@[i % 3],
    {
        let w = width as usize;
        let h = height as usize;
        assert(w * h * 3 == rgb_len(width, height));
        assert(w * h <= usize::MAX) by (nonlinear_arith)
            requires
                w * h * 3 <= usize::MAX,
        ;
        let n = w * h;
        let mut pixels: Vec<u8> = Vec::new();
        let mut i: usize = 0;
        while i < n
            invariant
                i <= n,
                n * 3 <= usize::MAX,
                pixels@.len() == i * 3,
                forall|k: int| 0 <= k < pixels@.len() ==> #[trigger] pixels@[k] == rgb@[k % 3],
            decreases n - i,
        {
            pixels.push(rgb[0]);
            pixels.push(rgb[1]);
            pixels.push(rgb[2]);
            i = i + 1;
        }
        RgbFrame { width, height, pixels }
    }

    pub fn width(&self) -> (w: u32)
        ensures
            w == self.spec_width(),
    {
        self.width
    }

    pub fn height(&self) -> (h: u32)
        ensures
            h == self.spec_height(),
    {
        self.height
    }

    /// The pixel bytes, exactly `width * height * 3` of them.
    pub fn pixels(&self) -> (p: &Vec<u8>)
        ensures
            p@ == self.spec_pixels(),
            p@.len() == rgb_len(self.spec_width(), self.spec_height()),
    {
        proof {
            use_type_invariant(self);
        }
        &self.pixels
    }

    /// The raw pixel bytes.
    pub fn into_raw(self) -> (p: Vec<u8>)
        ensures
            p@ == self.spec_pixels(),
            p@.len() == rgb_len(self.spec_width(), self.spec_height()),
    {
        proof {
            use_type_invariant(&self);
        }
        self.pixels
    }
}

/// An RGBA image: `width * height` pixels of four bytes each.
pub struct RgbaFrame {
    width: u32,
    height: u32,
    pixels: Vec<u8>,
}

impl RgbaFrame {
    #[verifier::type_invariant]
    spec fn wf(self) -> bool {
        self.pixels@.len() == rgba_len(self.width, self.height)
    }

    pub closed spec fn spec_width(&self) -> u32 {
        self.width
    }

    pub closed spec fn spec_height(&self) -> u32 {
        self.height
    }

    pub closed spec fn spec_pixels(&self) -> Seq<u8> {
        self.pixels@
    }

    /// An image from raw pixels, when they are exactly `width * height`
    /// pixels.
    pub fn from_raw(width: u32, height: u32, pixels: Vec<u8>) -> (r: Option<Self>)
        ensures
            r is Some <==> pixels@.len() == rgba_len(width, height),
            r matches Some(f) ==> f.spec_width() == width && f.spec_height() == height
                && f.spec_pixels() == pixels@,
    {
        let w = width as u64;
        let h = height as u64;
        assert(w * h <= 0xffff_ffff_ffff_ffff) by (nonlinear_arith)
            requires
                w <= 0xffff_ffff,
                h <= 0xffff_ffff,
        ;
        let wh = w * h;
        assert(wh == width * height);
        if wh > (usize::MAX / 4) as u64 {
            proof {
                let m = usize::MAX as int;
                assert(wh * 4 > m) by (nonlinear_arith)
                    requires
                        wh > m / 4,
                        m >= 0,
                ;
                assert(pixels@.len() == pixels.len());
            }
            return None;
        }
        if pixels.len() as u64 == wh * 4 {
            Some(RgbaFrame { width, height, pixels })
        } else {
            None
        }
    }

    /// An image of one colour.
    pub fn from_pixel(width: u32, height: u32, rgba: [u8; 4]) -> (f: Self)
        requires
            rgba_len(width, height) <= usize::MAX,
        ensures
            f.spec_width() == width,
            f.spec_height() == height,
            f.spec_pixels() == Seq::new((width * height * 4) as nat, |k: int| rgba@[k % 4]),
    {
        let w = width as usize;
        let h = height as usize;
        assert(w * h <= usize::MAX) by (nonlinear_arith)
            requires
                w * h * 4 <= usize::MAX,
        ;
        let n = w * h;
        let mut pixels: Vec<u8> = Vec::new();
        let mut i: usize = 0;
        while i < n
            invariant
                i <= n,
                n * 4 <= usize::MAX,
                pixels@ =~= Seq::new((i * 4) as nat, |k: int| rgba@[k % 4]),
            decreases n - i,
        {
            pixels.push(rgba[0]);
            pixels.push(rgba[1]);
            pixels.push(rgba[2]);
            pixels.push(rgba[3]);
            i = i + 1;
        }
        RgbaFrame { width, height, pixels }
    }

    pub fn width(&self) -> (w: u32)
        ensures
            w == self.spec_width(),
    {
        self.width
    }

    pub fn height(&self) -> (h: u32)
        ensures
            h == self.spec_height(),
    {
        self.height
    }

    /// The pixel bytes, exactly `width * height * 4` of them.
    pub fn pixels(&self) -> (p: &Vec<u8>)
        ensures
            p@ == self.spec_pixels(),
            p@.len() == rgba_len(self.spec_width(), self.spec_height()),
    {
        proof {
            use_type_invariant(self);
        }
        &self.pixels
    }

    /// The raw pixel bytes.
    pub fn into_raw(self) -> (p: Vec<u8>)
        ensures
            p@ == self.spec_pixels(),
            p@.len() == rgba_len(self.spec_width(), self.spec_height()),
    {
        proof {
            use_type_invariant(&self);
        }
        self.pixels
    }
}

/// `image::imageops::rotate90` on an RGB image.
///
/// Trusted: the source's loop puts each pixel (x, y) at (h - 1 - y, x) of a
/// buffer `height` wide and `width` high.
#[verifier::external_body]
fn rotate90_pixels(width: u32, height: u32, pixels: &Vec<u8>) -> (out: Vec<u8>)
    requires
        pixels@.len() == rgb_len(width, height),
    ensures
        out@ == rotated_pixels(width, height, pixels@, Rotation::Deg90),
{
    let img = image::RgbImage::from_raw(width, height, pixels.clone()).expect("exact buffer");
    image::imageops::rotate90(&img).into_raw()
}

/// `image::imageops::rotate180` on an RGB image.
///
/// Trusted: the source's loop puts each pixel (x, y) at (w - 1 - x,
/// h - 1 - y) of a buffer of the same dimensions.
#[verifier::external_body]
fn rotate180_pixels(width: u32, height: u32, pixels: &Vec<u8>) -> (out: Vec<u8>)
    requires
        pixels@.len() == rgb_len(width, height),
    ensures
        out@ == rotated_pixels(width, height, pixels@, Rotation::Deg180),
{
    let img = image::RgbImage::from_raw(width, height, pixels.clone()).expect("exact buffer");
    image::imageops::rotate180(&img).into_raw()
}

/// `image::imageops::rotate270` on an RGB image.
///
/// Trusted: the source's loop puts each pixel (x, y) at (y, w - 1 - x) of a
/// buffer `height` wide and `width` high.
#[verifier::external_body]
fn rotate270_pixels(width: u32, height: u32, pixels: &Vec<u8>) -> (out: Vec<u8>)
    requires
        pixels@.len() == rgb_len(width, height),
    ensures
        out@ == rotated_pixels(width, height, pixels@, Rotation::Deg270),
{
    let img = image::RgbImage::from_raw(width, height, pixels.clone()).expect("exact buffer");
    image::imageops::rotate270(&img).into_raw()
}

/// `image::imageops::crop_imm` followed by `SubImage::to_image` on an RGB
/// image.
///
/// Trusted: the source clamps the rectangle with `crop_dimms` and copies
/// pixel (x, y) of the part from (cx + x, cy + y) of the image.
#[verifier::external_body]
fn crop_pixels(width: u32, height: u32, pixels: &Vec<u8>, x: u32, y: u32, cw: u32, ch: u32) -> (out: (
    u32,
    u32,
    Vec<u8>,
))
    requires
        pixels@.len() == rgb_len(width, height),
    ensures
        ({
            let (cx, cy, w, h) = clamped_crop(width, height, x, y, cw, ch);
            out.0 == w && out.1 == h && out.2@ == cropped_pixels(width, pixels@, cx, cy, w, h)
        }),
{
    let img = image::RgbImage::from_raw(width, height, pixels.clone()).expect("exact buffer");
    let part = image::imageops::crop_imm(&img, x, y, cw, ch).to_image();
    (part.width(), part.height(), part.into_raw())
}

/// `DynamicImage::to_rgb8` on an RGBA image.
///
/// Trusted: for an RGBA image in the default sRGB colour space, the source
/// casts pixel by pixel, keeping the red, green and blue bytes of each pixel
/// and dropping its alpha byte.
#[verifier::external_body]
fn rgba_to_rgb_pixels(width: u32, height: u32, rgba: &Vec<u8>) -> (out: Vec<u8>)
    requires
        rgba@.len() == rgba_len(width, height),
    ensures
        out@ == rgb_of_rgba(rgba@),
        out@.len() == rgb_len(width, height),
{
    let img = image::RgbaImage::from_raw(width, height, rgba.clone()).expect("exact buffer");
    image::DynamicImage::ImageRgba8(img).to_rgb8().into_raw()
}

/// `fast_image_resize`'s `Resizer::resize` with Catmull-Rom convolution, of
/// an RGB image to `target_width` x `target_height`.
///
/// Trusted: the destination buffer `Image::new` allocates holds exactly the
/// target's pixels, the resize does not fail for matching pixel types, and
/// the bytes are a function of the arguments, named `resized` (for `u8`
/// pixels the convolution works in fixed point with the same coefficients
/// on every CPU extension, which the crate's tests check).
#[verifier::external_body]
fn resize_pixels(
    width: u32,
    height: u32,
    pixels: Vec<u8>,
    target_width: u32,
    target_height: u32,
) -> (out: Vec<u8>)
    requires
        pixels@.len() == rgb_len(width, height),
        rgb_len(target_width, target_height) <= usize::MAX,
    ensures
        out@.len() == rgb_len(target_width, target_height),
        out@ == resized(width, height, pixels@, target_width, target_height),
{
    let u8x3 = fast_image_resize::PixelType::U8x3;
    let src = fast_image_resize::images::Image::from_vec_u8(width, height, pixels, u8x3)
        .expect("exact buffer");
    let mut dst = fast_image_resize::images::Image::new(target_width, target_height, u8x3);
    let options = fast_image_resize::ResizeOptions::new().resize_alg(
        fast_image_resize::ResizeAlg::Convolution(fast_image_resize::FilterType::CatmullRom),
    );
    fast_image_resize::Resizer::new().resize(&src, &mut dst, &options).expect("same pixel type");
    dst.into_vec()
}

/// `JpegEncoder::new_with_quality` and `write_image` of an RGB image into a
/// byte buffer.
///
/// Trusted: the encoder refuses only sides of 0 or over 65535 pixels
/// (`EncoderError::InvalidSize`; writing to a `Vec` does not fail), starts
/// its output with the start-of-image marker, and its bytes are a function
/// of the image and the quality, named `jpeg_bytes`. The text of the error
/// is the encoder's own and is left unsaid.
#[verifier::external_body]
fn encode_jpeg(width: u32, height: u32, rgb: &Vec<u8>, quality: u8) -> (r: Result<Vec<u8>, String>)
    requires
        rgb@.len() == rgb_len(width, height),
    ensures
        r is Ok <==> jpeg_dims_ok(width, height),
        r matches Ok(b) ==> b@ == jpeg_bytes(width, height, rgb@, quality) && jpeg_soi().is_prefix_of(
            b@,
        ),
{
    let mut buf = Vec::new();
    let encoder = image::codecs::jpeg::JpegEncoder::new_with_quality(&mut buf, quality);
    let rgb8 = image::ExtendedColorType::Rgb8;
    match image::ImageEncoder::write_image(encoder, rgb, width, height, rgb8) {
        Ok(()) => Ok(buf),
        Err(e) => Err(e.to_string()),
    }
}

/// `DynamicImage::write_to` of an RGBA image in the PNG format.
///
/// Trusted: the `png` encoder refuses only a zero width or height (writing
/// to an in-memory buffer does not fail), writes the PNG signature first,
/// and its bytes are a function of the image alone, named `png_bytes`. The
/// text of the error is the encoder's own and is left unsaid.
#[verifier::external_body]
fn encode_png(width: u32, height: u32, rgba: &Vec<u8>) -> (r: Result<Vec<u8>, String>)
    requires
        rgba@.len() == rgba_len(width, height),
    ensures
        r is Ok <==> (width > 0 && height > 0),
        r matches Ok(b) ==> b@ == png_bytes(width, height, rgba@) && png_signature().is_prefix_of(
            b@,
        ),
{
    let img = image::RgbaImage::from_raw(width, height, rgba.clone()).expect("exact buffer");
    let mut buf = std::io::Cursor::new(Vec::new());
    match image::DynamicImage::ImageRgba8(img).write_to(&mut buf, image::ImageFormat::Png) {
        Ok(()) => Ok(buf.into_inner()),
        Err(e) => Err(e.to_string()),
    }
}

/// Rotate an RGB image clockwise.
pub fn rotate(rgb: &RgbFrame, rotation: Rotation) -> (out: RgbFrame)
    ensures
        (out.spec_width(), out.spec_height()) == rotated_dims(
            rgb.spec_width(),
            rgb.spec_height(),
            rotation,
        ),
        out.spec_pixels() == rotated_pixels(
            rgb.spec_width(),
            rgb.spec_height(),
            rgb.spec_pixels(),
            rotation,
        ),
{
    proof {
        use_type_invariant(rgb);
    }
    let w = rgb.width;
    let h = rgb.height;
    let (ow, oh, pixels) = match rotation {
        Rotation::Deg0 => (w, h, copy_bytes(&rgb.pixels)),
        Rotation::Deg90 => (h, w, rotate90_pixels(w, h, &rgb.pixels)),
        Rotation::Deg180 => (w, h, rotate180_pixels(w, h, &rgb.pixels)),
        Rotation::Deg270 => (h, w, rotate270_pixels(w, h, &rgb.pixels)),
    };
    proof {
        assert(rgb_len(ow, oh) == rgb_len(w, h)) by (nonlinear_arith)
            requires
                (ow == w && oh == h) || (ow == h && oh == w),
        ;
    }
    RgbFrame { width: ow, height: oh, pixels }
}

/// The part of an image that `crop_and_resize` keeps: the centred
/// rectangle of the given size, or the whole image.
pub open spec fn crop_stage(
    width: u32,
    height: u32,
    pixels: Seq<u8>,
    crop: Option<(u32, u32)>,
) -> (u32, u32, Seq<u8>) {
    match crop {
        None => (width, height, pixels),
        Some((cw, ch)) => {
            let left = centred_offset(width, cw);
            let top = centred_offset(height, ch);
            let (cx, cy, w, h) = clamped_crop(width, height, left, top, cw, ch);
            (w, h, cropped_pixels(width, pixels, cx, cy, w, h))
        },
    }
}

/// The offset that centres a span of `part` in one of `whole` (0 when the
/// part does not fit).
pub open spec fn centred_offset(whole: u32, part: u32) -> u32 {
    if part <= whole {
        ((whole - part) / 2) as u32
    } else {
        0
    }
}

/// Centre-crop an image to `crop` (the size of the part whose aspect ratio
/// matches the target, when the caller found it to differ; `None` keeps the
/// whole image), then resize it to the target resolution with Catmull-Rom
/// filtering. A part that already has the target size is returned as is.
/// No rotation, no encoding.
pub fn crop_and_resize(rgb: RgbFrame, crop: Option<(u32, u32)>, resolution: Resolution) -> (out:
    RgbFrame)
    requires
        rgb_len(resolution.width, resolution.height) <= usize::MAX,
    ensures
        out.spec_width() == resolution.width,
        out.spec_height() == resolution.height,
        ({
            let (w, h, p) = crop_stage(rgb.spec_width(), rgb.spec_height(), rgb.spec_pixels(), crop);
            out.spec_pixels() == resize_stage(w, h, p, resolution.width, resolution.height)
        }),
{
    proof {
        use_type_invariant(&rgb);
    }
    let part = match crop {
        None => rgb,
        Some((cw, ch)) => {
            let left = if cw <= rgb.width {
                (rgb.width - cw) / 2
            } else {
                0
            };
            let top = if ch <= rgb.height {
                (rgb.height - ch) / 2
            } else {
                0
            };
            let (w, h, pixels) = crop_pixels(
                rgb.width,
                rgb.height,
                &rgb.pixels,
                left,
                top,
                cw,
                ch,
            );
            proof {
                let ghost (cx, cy, w2, h2) = clamped_crop(rgb.width, rgb.height, left, top, cw, ch);
                assert(w == w2 && h == h2);
                assert(pixels@.len() == w * h * 3);
            }
            RgbFrame { width: w, height: h, pixels }
        },
    };
    if part.width == resolution.width && part.height == resolution.height {
        return part;
    }
    proof {
        use_type_invariant(&part);
    }
    let out = resize_pixels(
        part.width,
        part.height,
        part.pixels,
        resolution.width,
        resolution.height,
    );
    RgbFrame { width: resolution.width, height: resolution.height, pixels: out }
}

/// The outcome of `encode_resized`: the JPEG of the rotated image, or an
/// image error when the encoder refuses its dimensions.
pub open spec fn encoded_jpeg(
    width: u32,
    height: u32,
    pixels: Seq<u8>,
    rotation: Rotation,
    quality: u8,
) -> Option<Seq<u8>> {
    let (rw, rh) = rotated_dims(width, height, rotation);
    if jpeg_dims_ok(rw, rh) {
        Some(jpeg_bytes(rw, rh, rotated_pixels(width, height, pixels, rotation), quality))
    } else {
        None
    }
}

/// Rotate an already resized image for the device and encode it as JPEG.
pub fn encode_resized(rgb: &RgbFrame, rotation: Rotation, quality: u8) -> (r: Result<
    Vec<u8>,
    Error,
>)
    ensures
        match encoded_jpeg(rgb.spec_width(), rgb.spec_height(), rgb.spec_pixels(), rotation, quality) {
            Some(b) => r matches Ok(v) && v@ == b,
            None => r matches Err(Error::Image(_)),
        },
        r matches Ok(v) ==> jpeg_soi().is_prefix_of(v@),
{
    let rotated = rotate(rgb, rotation);
    proof {
        use_type_invariant(&rotated);
    }
    match encode_jpeg(rotated.width, rotated.height, &rotated.pixels, quality) {
        Ok(bytes) => Ok(bytes),
        Err(message) => Err(Error::Image(message)),
    }
}

/// Prepare an image for a device in one step: centre-crop (see
/// `crop_and_resize`), resize to its resolution, rotate and encode as JPEG.
pub fn prepare(rgb: RgbFrame, crop: Option<(u32, u32)>, info: &DeviceInfo, quality: u8) -> (r: Result<
    Vec<u8>,
    Error,
>)
    requires
        rgb_len(info.resolution.width, info.resolution.height) <= usize::MAX,
    ensures
        r is Ok <==> jpeg_dims_ok(
            rotated_dims(info.resolution.width, info.resolution.height, info.rotation).0,
            rotated_dims(info.resolution.width, info.resolution.height, info.rotation).1,
        ),
        r is Err ==> r matches Err(Error::Image(_)),
        r matches Ok(v) ==> jpeg_soi().is_prefix_of(v@),
        ({
            let (w, h, p) = crop_stage(rgb.spec_width(), rgb.spec_height(), rgb.spec_pixels(), crop);
            let (tw, th) = (info.resolution.width, info.resolution.height);
            match encoded_jpeg(tw, th, resize_stage(w, h, p, tw, th), info.rotation, quality) {
                Some(b) => r matches Ok(v) && v@ == b,
                None => r is Err,
            }
        }),
{
    let fitted = crop_and_resize(rgb, crop, info.resolution);
    encode_resized(&fitted, info.rotation, quality)
}

/// The outcome of preparing a composited RGBA canvas of `width` x `height`
/// for a device: a JPEG of the rotated RGB image for streaming, a PNG of the
/// canvas for file transfer; `None` when the encoder refuses it.
pub open spec fn prepared_frame(
    capability: DisplayCapability,
    rotation: Rotation,
    width: u32,
    height: u32,
    rgba: Seq<u8>,
) -> Option<DisplayFrameBytes> {
    match capability {
        DisplayCapability::Streaming => match encoded_jpeg(
            width,
            height,
            rgb_of_rgba(rgba),
            rotation,
            DEFAULT_JPEG_QUALITY,
        ) {
            Some(b) => Some(DisplayFrameBytes::Jpeg(b)),
            None => None,
        },
        DisplayCapability::FileTransfer => if width > 0 && height > 0 {
            Some(DisplayFrameBytes::Png(png_bytes(width, height, rgba)))
        } else {
            None
        },
    }
}

/// The bytes of a display frame, by kind.
pub enum DisplayFrameBytes {
    Jpeg(Seq<u8>),
    Png(Seq<u8>),
}

/// The bytes of a display frame.
pub open spec fn frame_bytes(f: DisplayFrame) -> DisplayFrameBytes {
    match f {
        DisplayFrame::StreamingJpeg(b) => DisplayFrameBytes::Jpeg(b@),
        DisplayFrame::FileTransferPng(b) => DisplayFrameBytes::Png(b@),
    }
}

/// Driver-owned encoder that turns an RGBA canvas into the frame bytes of a
/// display backend.
pub struct DisplayFrameEncoder {
    info: DeviceInfo,
    capability: DisplayCapability,
}

impl DisplayFrameEncoder {
    pub closed spec fn spec_rotation(&self) -> Rotation {
        self.info.rotation
    }

    pub closed spec fn spec_capability(&self) -> DisplayCapability {
        self.capability
    }

    pub closed spec fn spec_info(&self) -> DeviceInfo {
        self.info
    }

    pub fn new(info: DeviceInfo, capability: DisplayCapability) -> (e: Self)
        ensures
            e.spec_info() == info,
            e.spec_capability() == capability,
    {
        DisplayFrameEncoder { info, capability }
    }

    /// The encoder for a driver's device.
    pub fn from_driver<D, P>(driver: &DisplayDriver<D, P>) -> (e: Self)
        ensures
            crate::display::same_info(e.spec_info(), driver_info(*driver)),
            e.spec_capability() == driver_capability(*driver),
    {
        DisplayFrameEncoder {
            info: crate::display::copy_info(driver.info()),
            capability: driver.capability(),
        }
    }

    /// Encode a composited canvas for the device: streaming devices get a
    /// JPEG of its RGB pixels, rotated for the device, at the default
    /// quality; file-transfer devices get a PNG of it. Encoder failures
    /// are image errors.
    pub fn prepare(&self, composited: &RgbaFrame) -> (r: Result<DisplayFrame, Error>)
        ensures
            match prepared_frame(
                self.spec_capability(),
                self.spec_rotation(),
                composited.spec_width(),
                composited.spec_height(),
                composited.spec_pixels(),
            ) {
                Some(b) => r matches Ok(f) && frame_bytes(f) == b,
                None => r matches Err(Error::Image(_)),
            },
            r matches Ok(DisplayFrame::StreamingJpeg(b)) ==> jpeg_soi().is_prefix_of(b@),
            r matches Ok(DisplayFrame::FileTransferPng(b)) ==> png_signature().is_prefix_of(b@),
            self.spec_capability() == DisplayCapability::Streaming ==> (r matches Ok(f) ==> {
                let w = composited.spec_width();
                let h = composited.spec_height();
                let (rw, rh) = rotated_dims(w, h, self.spec_rotation());
                f matches DisplayFrame::StreamingJpeg(b) && b@ == jpeg_bytes(
                    rw,
                    rh,
                    rotated_pixels(w, h, rgb_of_rgba(composited.spec_pixels()), self.spec_rotation()),
                    DEFAULT_JPEG_QUALITY,
                )
            }),
    {
        let w = composited.width();
        let h = composited.height();
        let px = composited.pixels();
        match self.capability {
            DisplayCapability::Streaming => {
                let rgb = rgba_to_rgb_pixels(w, h, px);
                let frame = RgbFrame { width: w, height: h, pixels: rgb };
                match encode_resized(&frame, self.info.rotation, DEFAULT_JPEG_QUALITY) {
                    Ok(bytes) => Ok(DisplayFrame::StreamingJpeg(bytes)),
                    Err(e) => Err(e),
                }
            },
            DisplayCapability::FileTransfer => match encode_png(w, h, px) {
                Ok(bytes) => Ok(DisplayFrame::FileTransferPng(bytes)),
                Err(message) => Err(Error::Image(message)),
            },
        }
    }
}

/// A streaming device gets the JPEG of the canvas's RGB pixels turned by
/// the device's rotation (the picture's width and height swapped by a
/// quarter turn), whenever the encoder takes those dimensions.
pub proof fn lemma_streaming_frame_is_rotated_canvas(
    rotation: Rotation,
    width: u32,
    height: u32,
    rgba: Seq<u8>,
)
    ensures
        ({
            let (rw, rh) = rotated_dims(width, height, rotation);
            &&& rotation == Rotation::Deg90 || rotation == Rotation::Deg270 ==> rw == height && rh
                == width
            &&& rotation == Rotation::Deg0 || rotation == Rotation::Deg180 ==> rw == width && rh
                == height
            &&& jpeg_dims_ok(rw, rh) ==> prepared_frame(
                DisplayCapability::Streaming,
                rotation,
                width,
                height,
                rgba,
            ) == Some(
                DisplayFrameBytes::Jpeg(
                    jpeg_bytes(
                        rw,
                        rh,
                        rotated_pixels(width, height, rgb_of_rgba(rgba), rotation),
                        DEFAULT_JPEG_QUALITY,
                    ),
                ),
            )
            &&& !jpeg_dims_ok(rw, rh) ==> prepared_frame(
                DisplayCapability::Streaming,
                rotation,
                width,
                height,
                rgba,
            ) is None
        }),
{
}

/// A half turn puts channel `c` of pixel (`x`, `y`) of a `width` x `height`
/// RGB image at pixel (`width - 1 - x`, `height - 1 - y`).
pub proof fn lemma_half_turn_moves_pixel(
    width: u32,
    height: u32,
    pixels: Seq<u8>,
    x: int,
    y: int,
    c: int,
)
    requires
        0 <= x < width,
        0 <= y < height,
        0 <= c < 3,
    ensures
        rotated_pixels(width, height, pixels, Rotation::Deg180)[((height - 1 - y) * width + (width
            - 1 - x)) * 3 + c] == rgb_px(pixels, width as int, x, y, c),
        ((height - 1 - y) * width + (width - 1 - x)) * 3 + c < rotated_pixels(
            width,
            height,
            pixels,
            Rotation::Deg180,
        ).len(),
{
    let w = width as int;
    let h = height as int;
    let p = (h - 1 - y) * w + (w - 1 - x);
    let i = p * 3 + c;
    assert(0 <= p < w * h) by (nonlinear_arith)
        requires
            p == (h - 1 - y) * w + (w - 1 - x),
            0 <= x < w,
            0 <= y < h,
    ;
    assert(i / 3 == p && i % 3 == c) by (nonlinear_arith)
        requires
            i == p * 3 + c,
            0 <= c < 3,
            0 <= p,
    ;
    assert(p % w == w - 1 - x && p / w == h - 1 - y) by (nonlinear_arith)
        requires
            p == (h - 1 - y) * w + (w - 1 - x),
            0 <= x < w,
            0 <= y < h,
    ;
    assert(i < w * h * 3) by (nonlinear_arith)
        requires
            i == p * 3 + c,
            0 <= c < 3,
            p < w * h,
    ;
}

} // verus!
