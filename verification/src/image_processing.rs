//! Packed-pixel codec and edge-limited resizer.
//!
//! The host hands pixels over as 32-bit integers laid out `0xAARRGGBB`. Inside
//! the bridge an image is a row-major sequence of RGBA bytes, four per pixel.

use vstd::prelude::*;

verus! {

/// Red channel of a packed `0xAARRGGBB` pixel.
pub open spec fn red_of(p: i32) -> u8 {
    (((p as u32) >> 16) & 0xff) as u8
}

/// Green channel of a packed `0xAARRGGBB` pixel.
pub open spec fn green_of(p: i32) -> u8 {
    (((p as u32) >> 8) & 0xff) as u8
}

/// Blue channel of a packed `0xAARRGGBB` pixel.
pub open spec fn blue_of(p: i32) -> u8 {
    ((p as u32) & 0xff) as u8
}

/// Alpha channel of a packed `0xAARRGGBB` pixel.
pub open spec fn alpha_of(p: i32) -> u8 {
    ((p as u32) >> 24) as u8
}

/// The packed pixel `0xAARRGGBB` made of four channels, as the signed integer
/// with that bit pattern.
pub open spec fn pack_pixel(r: u8, g: u8, b: u8, a: u8) -> i32 {
    (((a as u32) << 24) | ((r as u32) << 16) | ((g as u32) << 8) | (b as u32)) as i32
}

/// Splits one packed pixel into its channels, in RGBA order.
pub fn unpack_argb(p: i32) -> (c: (u8, u8, u8, u8))
    ensures
        c.0 == red_of(p),
        c.1 == green_of(p),
        c.2 == blue_of(p),
        c.3 == alpha_of(p),
{
    let u: u32 = p as u32;
    let a: u8 = (u >> 24) as u8;
    let r: u8 = ((u >> 16) & 0xff) as u8;
    let g: u8 = ((u >> 8) & 0xff) as u8;
    let b: u8 = (u & 0xff) as u8;
    (r, g, b, a)
}

/// Packs four channels into one `0xAARRGGBB` pixel.
pub fn pack_argb(r: u8, g: u8, b: u8, a: u8) -> (p: i32)
    ensures
        p == pack_pixel(r, g, b, a),
{
    let u: u32 = ((a as u32) << 24) | ((r as u32) << 16) | ((g as u32) << 8) | (b as u32);
    u as i32
}

/// Channel `k` of a packed pixel in RGBA order: 0 red, 1 green, 2 blue, 3 alpha.
pub open spec fn channel_of(p: i32, k: int) -> u8 {
    if k == 0 {
        red_of(p)
    } else if k == 1 {
        green_of(p)
    } else if k == 2 {
        blue_of(p)
    } else {
        alpha_of(p)
    }
}

/// The RGBA bytes of a packed buffer: four bytes per pixel, in pixel order.
pub open spec fn rgba_bytes(buf: Seq<i32>) -> Seq<u8> {
    Seq::new(4 * buf.len(), |j: int| channel_of(buf[j / 4], j % 4))
}

/// The packed buffer of a sequence of RGBA bytes: one pixel per four bytes.
pub open spec fn packed_pixels(data: Seq<u8>) -> Seq<i32> {
    Seq::new(
        data.len() / 4,
        |i: int| pack_pixel(data[4 * i], data[4 * i + 1], data[4 * i + 2], data[4 * i + 3]),
    )
}

/// The pixel count of any two 32-bit edges fits in 64 bits.
pub proof fn lemma_area_bound(width: u32, height: u32)
    ensures
        0 <= width * height <= 0xffff_fffe_0000_0001,
{
    assert(0 <= width * height <= 0xffff_ffff * 0xffff_ffff) by (nonlinear_arith)
        requires
            0 <= width <= 0xffff_ffff,
            0 <= height <= 0xffff_ffff,
    ;
}

/// What an [`Image`] holds: its dimensions and its RGBA bytes.
pub struct ImageView {
    pub width: u32,
    pub height: u32,
    pub data: Seq<u8>,
}

impl ImageView {
    /// Four bytes per pixel, rows one after the other, nothing in between.
    pub open spec fn well_formed(self) -> bool {
        self.data.len() == 4 * (self.width * self.height)
    }

    /// The longer of the two edges.
    pub open spec fn longest_edge(self) -> u32 {
        if self.width > self.height {
            self.width
        } else {
            self.height
        }
    }
}

/// An RGBA image: width, height and four bytes per pixel in row-major order.
#[derive(Debug, PartialEq, Eq)]
pub struct Image {
    width: u32,
    height: u32,
    data: Vec<u8>,
}

impl View for Image {
    type V = ImageView;

    closed spec fn view(&self) -> ImageView {
        ImageView { width: self.width, height: self.height, data: self.data@ }
    }
}

/// Why a packed buffer was not decoded.
#[derive(Clone, Copy, Debug, PartialEq, Eq)]
pub enum DecodeError {
    /// The buffer does not hold exactly `width * height` pixels.
    LengthMismatch,
}

impl Clone for Image {
    fn clone(&self) -> (copy: Image)
        ensures
            copy@ == self@,
    {
        proof {
            use_type_invariant(self);
        }
        Image { width: self.width, height: self.height, data: self.data.clone() }
    }
}

impl Image {
    #[verifier::type_invariant]
    spec fn inv(self) -> bool {
        self.data@.len() == 4 * (self.width * self.height)
    }

    /// An image over `data`, if `data` holds exactly `width * height` pixels of
    /// four bytes each.
    pub fn from_raw(width: u32, height: u32, data: Vec<u8>) -> (r: Option<Image>)
        ensures
            r is Some <==> data@.len() == 4 * (width * height),
            r matches Some(img) ==> img@ == (ImageView { width, height, data: data@ }),
    {
        proof {
            lemma_area_bound(width, height);
        }
        let area: u64 = (width as u64) * (height as u64);
        if data.len() as u128 == 4u128 * (area as u128) {
            Some(Image { width, height, data })
        } else {
            None
        }
    }

    /// Width in pixels.
    pub fn width(&self) -> (w: u32)
        ensures
            w == self@.width,
    {
        self.width
    }

    /// Height in pixels.
    pub fn height(&self) -> (h: u32)
        ensures
            h == self@.height,
    {
        self.height
    }

    /// The RGBA bytes.
    pub fn as_raw(&self) -> (data: &Vec<u8>)
        ensures
            data@ == self@.data,
            self@.well_formed(),
    {
        proof {
            use_type_invariant(self);
        }
        &self.data
    }

    /// Gives up the image for its RGBA bytes.
    pub fn into_raw(self) -> (data: Vec<u8>)
        ensures
            data@ == self@.data,
            self@.well_formed(),
    {
        proof {
            use_type_invariant(&self);
        }
        self.data
    }
}

/// Decodes a packed `0xAARRGGBB` buffer of `width * height` pixels into an
/// RGBA image. A buffer of any other length is refused.
pub fn argb8888_to_dynamic_image(width: u32, height: u32, pixels: Vec<i32>) -> (r: Result<
    Image,
    DecodeError,
>)
    ensures
        pixels@.len() != width * height ==> r == Err::<Image, DecodeError>(
            DecodeError::LengthMismatch,
        ),
        pixels@.len() == width * height ==> (r matches Ok(img) && img@ == (ImageView {
            width,
            height,
            data: rgba_bytes(pixels@),
        })),
{
    proof {
        lemma_area_bound(width, height);
    }
    let n: usize = pixels.len();
    if n as u64 != (width as u64) * (height as u64) {
        return Err(DecodeError::LengthMismatch);
    }
    let mut data: Vec<u8> = Vec::new();
    let mut i: usize = 0;
    while i < n
        invariant
            i <= n,
            n == pixels@.len(),
            data@.len() == 4 * i,
            forall|j: int| 0 <= j < 4 * i ==> data@[j] == channel_of(pixels@[j / 4], j % 4),
        decreases n - i,
    {
        let (r, g, b, a) = unpack_argb(pixels[i]);
        data.push(r);
        data.push(g);
        data.push(b);
        data.push(a);
        i = i + 1;
    }
    assert(data@ =~= rgba_bytes(pixels@));
    Ok(Image { width, height, data })
}

/// Encodes an RGBA image as a packed `0xAARRGGBB` buffer, one integer per
/// pixel. The sign bit of a pixel is its top alpha bit.
pub fn dynamic_image_to_argb8888(image: Image) -> (out: Vec<i32>)
    ensures
        out@ == packed_pixels(image@.data),
        out@.len() == image@.width * image@.height,
{
    proof {
        use_type_invariant(&image);
    }
    let len: usize = image.data.len();
    let n: usize = len / 4;
    let mut out: Vec<i32> = Vec::new();
    let mut i: usize = 0;
    while i < n
        invariant
            i <= n,
            len == image.data@.len(),
            len == 4 * n,
            out@.len() == i,
            forall|k: int|
                0 <= k < i ==> out@[k] == pack_pixel(
                    image.data@[4 * k],
                    image.data@[4 * k + 1],
                    image.data@[4 * k + 2],
                    image.data@[4 * k + 3],
                ),
        decreases n - i,
    {
        let p: i32 = pack_argb(
            image.data[4 * i],
            image.data[4 * i + 1],
            image.data[4 * i + 2],
            image.data[4 * i + 3],
        );
        out.push(p);
        i = i + 1;
    }
    assert(out@ =~= packed_pixels(image@.data));
    out
}

/// Why an image was not resized.
#[derive(Clone, Copy, Debug, PartialEq, Eq)]
pub enum ResizeError {
    /// The image has no pixels: its width or its height is zero.
    InvalidDimensions,
    /// The image has to be scaled and is beyond what the resampler takes:
    /// an edge is longer than [`MAX_RESAMPLE_EDGE`], or the resampler's
    /// working buffer would not fit the machine.
    TooLarge,
}

/// The longest edge, in pixels, of an image that is handed to the resampler.
///
/// The resampler places every output pixel in the source with single
/// precision arithmetic, which is exact to one part in 2^23. Up to this edge
/// a position is off by an eighth of a pixel at most, so the source pixel
/// next to it is always among those that the filter weighs.
pub const MAX_RESAMPLE_EDGE: u32 = 0x10_0000;

/// Whether an image of `width` by `height` that has to be scaled to
/// `max_edge` is one that the resampler takes: no edge is longer than
/// [`MAX_RESAMPLE_EDGE`], and the working buffer of the resampler, sixteen
/// bytes for each pixel of an image as wide as the source and as high as the
/// result, fits the machine.
pub open spec fn can_resample(width: u32, height: u32, max_edge: u32) -> bool {
    &&& width <= MAX_RESAMPLE_EDGE
    &&& height <= MAX_RESAMPLE_EDGE
    &&& 16 * (width * resized_dimensions(width, height, max_edge).1) <= isize::MAX
}

/// `edge` scaled by `max_edge / longest` and rounded down.
pub open spec fn scaled_edge(edge: u32, longest: u32, max_edge: u32) -> int {
    (edge * max_edge) / (longest as int)
}

/// The dimensions that an image of `width` by `height` has once its longest
/// edge is limited to `max_edge`: unchanged if it already fits, else both
/// edges scaled by `max_edge / longest edge`, each rounded down on its own.
pub open spec fn resized_dimensions(width: u32, height: u32, max_edge: u32) -> (int, int) {
    let longest = if width > height {
        width
    } else {
        height
    };
    if longest <= max_edge {
        (width as int, height as int)
    } else {
        (scaled_edge(width, longest, max_edge), scaled_edge(height, longest, max_edge))
    }
}

/// A scaled edge is no longer than the edge it came from, nor than the limit.
pub proof fn lemma_scaled_edge_bounds(edge: u32, longest: u32, max_edge: u32)
    requires
        edge <= longest,
        max_edge <= longest,
        0 < longest,
    ensures
        0 <= scaled_edge(edge, longest, max_edge) <= edge,
        scaled_edge(edge, longest, max_edge) <= max_edge,
{
    let l = longest as int;
    let p = edge * max_edge;
    assert(0 <= p <= edge * l && p <= max_edge * l) by (nonlinear_arith)
        requires
            p == edge * max_edge,
            0 <= edge <= l,
            0 <= max_edge <= l,
    ;
    assert(0 <= p / l <= edge && p / l <= max_edge) by (nonlinear_arith)
        requires
            0 < l,
            0 <= p <= edge * l,
            p <= max_edge * l,
    ;
}

/// A scaled edge is the exact quotient rounded down: it falls short of
/// `edge * max_edge / longest` by less than one pixel.
pub proof fn lemma_scaled_edge_is_floor(edge: u32, longest: u32, max_edge: u32)
    requires
        0 < longest,
    ensures
        scaled_edge(edge, longest, max_edge) * longest <= edge * max_edge,
        edge * max_edge < (scaled_edge(edge, longest, max_edge) + 1) * longest,
{
    let l = longest as int;
    let p = edge * max_edge;
    assert((p / l) * l <= p < (p / l + 1) * l) by (nonlinear_arith)
        requires
            0 < l,
            0 <= p,
    ;
}

/// The longest edge, scaled, is exactly the limit.
pub proof fn lemma_longest_edge_becomes_limit(longest: u32, max_edge: u32)
    requires
        0 < longest,
    ensures
        scaled_edge(longest, longest, max_edge) == max_edge,
{
    let l = longest as int;
    let m = max_edge as int;
    assert((l * m) / l == m) by (nonlinear_arith)
        requires
            0 < l,
            0 <= m,
    ;
}

/// Computes [`resized_dimensions`].
pub fn target_dimensions(width: u32, height: u32, max_edge: u32) -> (dims: (u32, u32))
    ensures
        (dims.0 as int, dims.1 as int) == resized_dimensions(width, height, max_edge),
        dims.0 <= width,
        dims.1 <= height,
        (width > max_edge || height > max_edge) ==> dims.0 <= max_edge && dims.1 <= max_edge,
{
    let longest: u32 = if width > height {
        width
    } else {
        height
    };
    if longest <= max_edge {
        return (width, height);
    }
    proof {
        lemma_scaled_edge_bounds(width, longest, max_edge);
        lemma_scaled_edge_bounds(height, longest, max_edge);
        lemma_area_bound(width, max_edge);
        lemma_area_bound(height, max_edge);
    }
    let new_width: u64 = (width as u64) * (max_edge as u64) / (longest as u64);
    let new_height: u64 = (height as u64) * (max_edge as u64) / (longest as u64);
    (new_width as u32, new_height as u32)
}

/// Resamples RGBA bytes to smaller dimensions with `image`'s
/// `DynamicImage::resize_exact` and its `Lanczos3` filter, going in through
/// `ImageBuffer::from_raw` and out through `into_raw`.
///
/// Believed of it: `from_raw` takes a buffer that has four bytes for each
/// pixel of the source, and what `resize_exact` gives back has the new
/// dimensions, so four bytes for each of their pixels. Nothing is claimed of
/// the bytes themselves, which come out of floating-point filtering.
///
/// What is asked keeps the call away from where the filter panics:
/// - The filter makes two buffers on the way, one of `width` by `new_height`
///   pixels of four 32-bit numbers and one of the new dimensions, and
///   `ImageBuffer::new` panics where a buffer's size overflows. Both are
///   bounded here by sixteen bytes for each pixel of the first.
/// - The filter places each output pixel in the source in single precision
///   and divides its weights by their sum. Where an edge is so long that the
///   position is off by whole pixels, every pixel in reach can fall outside
///   the kernel, the sum is zero, and the conversion of the result panics.
///   With no edge longer than [`MAX_RESAMPLE_EDGE`] and nothing scaled up,
///   the pixel next to the position is always weighed.
/// Running out of memory is not part of the contract.
#[verifier::external_body]
fn resample_lanczos3(
    width: u32,
    height: u32,
    data: Vec<u8>,
    new_width: u32,
    new_height: u32,
) -> (out: Option<Vec<u8>>)
    requires
        0 < width <= MAX_RESAMPLE_EDGE,
        0 < height <= MAX_RESAMPLE_EDGE,
        new_width <= width,
        new_height <= height,
        data@.len() == 4 * (width * height),
        16 * (width * new_height) <= isize::MAX,
    ensures
        out is Some,
        out matches Some(bytes) ==> bytes@.len() == 4 * (new_width * new_height),
{
    let source = image::RgbaImage::from_raw(width, height, data)?;
    let resized = image::DynamicImage::ImageRgba8(source).resize_exact(
        new_width,
        new_height,
        image::imageops::FilterType::Lanczos3,
    );
    Some(resized.into_rgba8().into_raw())
}

/// Scales an image down so that its longest edge is at most `max_edge`. An
/// image that already fits comes back as it is, whatever its size: nothing is
/// ever scaled up. An image without pixels is refused, and so is one that has
/// to be scaled and is beyond what the resampler takes.
pub fn resize_image_to_max_edge(img: Image, max_edge: u32) -> (r: Result<Image, ResizeError>)
    ensures
        match r {
            Err(e) => {
                if img@.width == 0 || img@.height == 0 {
                    e == ResizeError::InvalidDimensions
                } else {
                    &&& e == ResizeError::TooLarge
                    &&& img@.longest_edge() > max_edge
                    &&& !can_resample(img@.width, img@.height, max_edge)
                }
            },
            Ok(out) => {
                &&& img@.width > 0 && img@.height > 0
                &&& img@.longest_edge() <= max_edge || can_resample(
                    img@.width,
                    img@.height,
                    max_edge,
                )
                &&& out@.well_formed()
                &&& (out@.width as int, out@.height as int) == resized_dimensions(
                    img@.width,
                    img@.height,
                    max_edge,
                )
                &&& img@.longest_edge() <= max_edge ==> out@ == img@
                &&& img@.longest_edge() > max_edge ==> out@.longest_edge() == max_edge
                &&& out@.longest_edge() <= max_edge
            },
        },
{
    proof {
        use_type_invariant(&img);
    }
    let width: u32 = img.width;
    let height: u32 = img.height;
    if width == 0 || height == 0 {
        return Err(ResizeError::InvalidDimensions);
    }
    let longest: u32 = if width > height {
        width
    } else {
        height
    };
    if longest <= max_edge {
        return Ok(img);
    }
    let (new_width, new_height) = target_dimensions(width, height, max_edge);
    if !fits_resampler(width, height, new_height) {
        return Err(ResizeError::TooLarge);
    }
    proof {
        lemma_longest_edge_becomes_limit(longest, max_edge);
    }
    let resampled: Option<Vec<u8>> = resample_lanczos3(
        width,
        height,
        img.data,
        new_width,
        new_height,
    );
    let resized: Option<Image> = Image::from_raw(new_width, new_height, resampled.unwrap());
    Ok(resized.unwrap())
}

/// Tests the three bounds of [`can_resample`] on the height that the result
/// will have.
fn fits_resampler(width: u32, height: u32, new_height: u32) -> (fits: bool)
    requires
        new_height <= height,
    ensures
        fits == (width <= MAX_RESAMPLE_EDGE && height <= MAX_RESAMPLE_EDGE && 16 * (width
            * new_height) <= isize::MAX),
{
    if width > MAX_RESAMPLE_EDGE || height > MAX_RESAMPLE_EDGE {
        return false;
    }
    proof {
        assert(0 <= width * new_height <= 0x10_0000 * 0x10_0000) by (nonlinear_arith)
            requires
                0 <= width <= 0x10_0000,
                0 <= new_height <= 0x10_0000,
        ;
    }
    let working: u64 = 16 * ((width as u64) * (new_height as u64));
    working <= isize::MAX as u64
}

/// A packed pixel is negative exactly when its alpha is in the upper half.
pub proof fn lemma_sign_bit_is_alpha(r: u8, g: u8, b: u8, a: u8)
    ensures
        pack_pixel(r, g, b, a) < 0 <==> a >= 0x80,
{
    assert(pack_pixel(r, g, b, a) < 0 <==> a >= 0x80) by (bit_vector);
}

/// A packed pixel is the pack of its own channels.
pub proof fn lemma_pack_unpack(p: i32)
    ensures
        pack_pixel(red_of(p), green_of(p), blue_of(p), alpha_of(p)) == p,
{
    assert(pack_pixel(red_of(p), green_of(p), blue_of(p), alpha_of(p)) == p) by (bit_vector);
}

/// The channels of a packed pixel are the channels it was packed from.
pub proof fn lemma_unpack_pack(r: u8, g: u8, b: u8, a: u8)
    ensures
        red_of(pack_pixel(r, g, b, a)) == r,
        green_of(pack_pixel(r, g, b, a)) == g,
        blue_of(pack_pixel(r, g, b, a)) == b,
        alpha_of(pack_pixel(r, g, b, a)) == a,
{
    assert(red_of(pack_pixel(r, g, b, a)) == r) by (bit_vector);
    assert(green_of(pack_pixel(r, g, b, a)) == g) by (bit_vector);
    assert(blue_of(pack_pixel(r, g, b, a)) == b) by (bit_vector);
    assert(alpha_of(pack_pixel(r, g, b, a)) == a) by (bit_vector);
}

/// Round trip: encoding the decoded bytes of any packed buffer gives the
/// buffer back, pixel for pixel.
pub proof fn lemma_decode_then_encode(buf: Seq<i32>)
    ensures
        packed_pixels(rgba_bytes(buf)) == buf,
{
    let bytes = rgba_bytes(buf);
    assert forall|i: int| 0 <= i < buf.len() implies #[trigger] packed_pixels(bytes)[i]
        == buf[i] by {
        lemma_pack_unpack(buf[i]);
    }
    assert(packed_pixels(bytes) =~= buf);
}

/// Round trip the other way: decoding the packed form of RGBA bytes gives the
/// bytes back, when they make whole pixels.
pub proof fn lemma_encode_then_decode(data: Seq<u8>)
    requires
        data.len() % 4 == 0,
    ensures
        rgba_bytes(packed_pixels(data)) == data,
{
    let buf = packed_pixels(data);
    assert forall|j: int| 0 <= j < data.len() implies #[trigger] rgba_bytes(buf)[j]
        == data[j] by {
        let i = j / 4;
        lemma_unpack_pack(data[4 * i], data[4 * i + 1], data[4 * i + 2], data[4 * i + 3]);
    }
    assert(rgba_bytes(buf) =~= data);
}

} // verus!
