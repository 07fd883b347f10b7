//! Frames of the camera as pixels of a frame buffer, and frame buffers as picture files.
//!
//! A pixel of a frame buffer holds red, green and blue in its three low bytes, red highest.

use crate::jpeg;
use crate::text::{self, push_decimal};
use vstd::prelude::*;
use vstd::string::*;
use vstd::utf8::*;

verus! {

/// A pixel of three colours.
pub open spec fn packed(r: u8, g: u8, b: u8) -> u32 {
    (r * 0x1_0000 + g * 0x100 + b) as u32
}

fn pack(r: u8, g: u8, b: u8) -> (p: u32)
    ensures
        p == packed(r, g, b),
{
    r as u32 * 0x1_0000 + g as u32 * 0x100 + b as u32
}

/// A buffer with one item replaced, where it is in the buffer.
pub open spec fn put(buf: Seq<u32>, i: int, pixel: u32) -> Seq<u32> {
    if 0 <= i < buf.len() {
        buf.update(i, pixel)
    } else {
        buf
    }
}

fn put_pixel(buf: &mut [u32], row: usize, buf_w: usize, col: usize, pixel: u32)
    ensures
        final(buf)@ == put(old(buf)@, row * buf_w + col, pixel),
{
    proof {
        assert(0 <= row * buf_w <= 0xffff_ffff_ffff_ffff * 0xffff_ffff_ffff_ffff)
            by (nonlinear_arith)
            requires
                0 <= row <= 0xffff_ffff_ffff_ffff,
                0 <= buf_w <= 0xffff_ffff_ffff_ffff,
        ;
    }
    let at: u128 = row as u128 * buf_w as u128 + col as u128;
    if at < buf.len() as u128 {
        buf[at as usize] = pixel;
    }
}

// ---------------------------------------------------------------------------------------------
// UYVY
// ---------------------------------------------------------------------------------------------

/// A number, or the nearest one that a byte holds.
pub open spec fn clamped(n: int) -> u8 {
    if n < 0 {
        0
    } else if n > 255 {
        255
    } else {
        n as u8
    }
}

/// Red: luma plus 1.402 of the red difference.
pub open spec fn red_of(y: u8, v: u8) -> u8 {
    clamped((1000 * y + 1402 * (v - 128)) / 1000)
}

/// Green: luma less 0.344136 of the blue difference and 0.714136 of the red difference. For one pair
/// of differences the two products cancel to a whole number; there the result for a bright pixel is
/// one lower, as it is in binary arithmetic that rounds after each product.
pub open spec fn green_of(y: u8, u: u8, v: u8) -> u8 {
    let exact = (1_000_000 * y - 344_136 * (u - 128) - 714_136 * (v - 128)) / 1_000_000;
    if u == 28 && v == 228 && y >= 222 {
        clamped(exact - 1)
    } else {
        clamped(exact)
    }
}

/// Blue: luma plus 1.772 of the blue difference.
pub open spec fn blue_of(y: u8, u: u8) -> u8 {
    clamped((1000 * y + 1772 * (u - 128)) / 1000)
}

fn clamp_ratio(numerator: i64, denominator: i64, less: i64) -> (r: u8)
    requires
        denominator == 1000 || denominator == 1_000_000,
        -1_000_000_000 <= numerator <= 1_000_000_000,
        0 <= less <= 1,
    ensures
        r == clamped(numerator as int / denominator as int - less),
{
    if numerator < 0 {
        return 0;
    }
    let quotient: u64 = if denominator == 1000 {
        numerator as u64 / 1000
    } else {
        numerator as u64 / 1_000_000
    };
    let n: i64 = quotient as i64 - less;
    if n < 0 {
        0
    } else if n > 255 {
        255
    } else {
        n as u8
    }
}

/// The colours of a pixel from its luma and the two colour differences that it shares with its
/// neighbour.
pub fn yuv_to_rgb(y: u8, u: u8, v: u8) -> (r: (u8, u8, u8))
    ensures
        r == (red_of(y, v), green_of(y, u, v), blue_of(y, u)),
{
    let du: i64 = u as i64 - 128;
    let dv: i64 = v as i64 - 128;
    let less: i64 = if u == 28 && v == 228 && y >= 222 {
        1
    } else {
        0
    };
    let red = clamp_ratio(1000 * y as i64 + 1402 * dv, 1000, 0);
    let green = clamp_ratio(1_000_000 * y as i64 - 344_136 * du - 714_136 * dv, 1_000_000, less);
    let blue = clamp_ratio(1000 * y as i64 + 1772 * du, 1000, 0);
    (red, green, blue)
}

/// The pixel of a luma and two colour differences.
pub open spec fn uyvy_pixel(y: u8, u: u8, v: u8) -> u32 {
    packed(red_of(y, v), green_of(y, u, v), blue_of(y, u))
}

/// How many groups of two pixels a frame holds: four bytes each, and no more than fit the picture.
pub open spec fn uyvy_groups(data_len: int, width: int, height: int) -> int {
    if data_len / 4 <= width * height / 2 {
        data_len / 4
    } else {
        width * height / 2
    }
}

/// A frame buffer with the first `n` groups of a frame written into it, in order. The two pixels of
/// a group stand side by side; the second one is left out where the first one ends its row.
pub open spec fn with_uyvy(buf: Seq<u32>, data: Seq<u8>, width: int, buf_w: int, n: nat) -> Seq<u32>
    decreases n,
{
    if n == 0 {
        buf
    } else {
        let before = with_uyvy(buf, data, width, buf_w, (n - 1) as nat);
        let src = 4 * (n - 1);
        let row = 2 * (n - 1) / width;
        let col = 2 * (n - 1) % width;
        let (u, y0, v, y1) = (data[src], data[src + 1], data[src + 2], data[src + 3]);
        let first = put(before, row * buf_w + col, uyvy_pixel(y0, u, v));
        if col + 1 < width {
            put(first, row * buf_w + col + 1, uyvy_pixel(y1, u, v))
        } else {
            first
        }
    }
}

/// Decode UYVY (YUV 4:2:2 packed) to a frame buffer with rows of `buf_w` pixels
pub fn decode_uyvy(data: &[u8], buf: &mut [u32], width: usize, height: usize, buf_w: usize)
    ensures
        final(buf)@ == with_uyvy(
            old(buf)@,
            data@,
            width as int,
            buf_w as int,
            uyvy_groups(data@.len() as int, width as int, height as int) as nat,
        ),
{
    proof {
        assert(0 <= width * height <= 0xffff_ffff_ffff_ffff * 0xffff_ffff_ffff_ffff)
            by (nonlinear_arith)
            requires
                0 <= width <= 0xffff_ffff_ffff_ffff,
                0 <= height <= 0xffff_ffff_ffff_ffff,
        ;
    }
    let total: u128 = width as u128 * height as u128;
    let len: usize = data.len();
    let groups: usize = if (len / 4) as u128 <= total / 2 {
        len / 4
    } else {
        (total / 2) as usize
    };
    let ghost before = buf@;
    for j in 0..groups
        invariant
            total == width * height,
            groups <= total / 2,
            len == data@.len(),
            groups <= len / 4,
            buf@ == with_uyvy(before, data@, width as int, buf_w as int, j as nat),
    {
        let src: usize = 4 * j;
        let px: usize = 2 * j;
        proof {
            assert(px + 1 < total);
            assert(width > 0) by (nonlinear_arith)
                requires
                    0 < total,
                    total == width * height,
                    width >= 0,
                    height >= 0,
            ;
        }
        let u: u8 = data[src];
        let y0: u8 = data[src + 1];
        let v: u8 = data[src + 2];
        let y1: u8 = data[src + 3];
        let row: usize = px / width;
        let col: usize = px % width;
        let (r0, g0, b0) = yuv_to_rgb(y0, u, v);
        put_pixel(buf, row, buf_w, col, pack(r0, g0, b0));
        if col < width - 1 {
            let (r1, g1, b1) = yuv_to_rgb(y1, u, v);
            put_pixel(buf, row, buf_w, col + 1, pack(r1, g1, b1));
        }
    }
}

// ---------------------------------------------------------------------------------------------
// JPEG
// ---------------------------------------------------------------------------------------------

/// How the pixels of a decoded JPEG are stored.
#[derive(Debug, Clone, Copy, PartialEq, Eq, Structural)]
pub enum JpegPixels {
    /// Three bytes: red, green, blue.
    Rgb24,
    /// One byte of luminance.
    L8,
    /// Two bytes of luminance.
    L16,
    /// Four bytes: cyan, magenta, yellow, key.
    Cmyk32,
}

/// A decoded JPEG.
#[derive(Debug, Clone)]
pub struct JpegImage {
    pub pixels: Vec<u8>,
    pub width: u16,
    pub height: u16,
    pub format: JpegPixels,
}

/// A decoded JPEG, with its pixels as a sequence.
pub ghost struct JpegModel {
    pub pixels: Seq<u8>,
    pub width: u16,
    pub height: u16,
    pub format: JpegPixels,
}

impl View for JpegImage {
    type V = JpegModel;

    open spec fn view(&self) -> JpegModel {
        JpegModel {
            pixels: self.pixels@,
            width: self.width,
            height: self.height,
            format: self.format,
        }
    }
}

/// What the `jpeg_decoder` crate makes of the bytes of a JPEG with its colours as RGB: width, height
/// and storage of the image, or the words of its error where it cannot decode them.
pub uninterp spec fn jpeg_outcome(data: Seq<u8>) -> Result<(u16, u16, JpegPixels), Seq<char>>;

/// Whether an image has the size and the storage that the bytes of a JPEG give it, and all of its
/// pixels are there.
pub open spec fn shows_frame(m: JpegModel, data: Seq<u8>) -> bool {
    &&& jpeg_outcome(data) == Ok::<(u16, u16, JpegPixels), Seq<char>>((m.width, m.height, m.format))
    &&& m.pixels.len() >= m.width * m.height * pixel_bytes(m.format)
}

/// Whether words tell why the bytes of a JPEG have no image on this machine: they are those of the
/// decoder where it cannot decode the bytes; else the pixels are more bytes than the machine can
/// address.
pub open spec fn explains(words: Seq<char>, data: Seq<u8>) -> bool {
    match jpeg_outcome(data) {
        Ok((width, height, format)) => width * height * pixel_bytes(format) > usize::MAX,
        Err(error) => words == error,
    }
}

/// `Decoder::decode` of `jpeg_decoder`, with the colour transform to RGB forced, what
/// `Decoder::info` says of the image, and the `{:?}` form of the error. Size, storage and error
/// depend on the bytes alone and are named [`jpeg_outcome`]; on success every pixel is stored, and
/// an error comes only where the bytes cannot be decoded or the image is too large for the machine.
/// JPEGs with a scan of one component that cannot be counted in 16 bits are left out: there the
/// crate's count overflows, which is a panic where overflow is checked. Nothing is said of a machine
/// that runs out of memory or threads. The values of the pixels are left unsaid too: the crate
/// rounds its cosine transform as the processor at hand allows, and gives samples of more than eight
/// bits in the byte order of the machine.
#[verifier::external_body]
fn decode_jpeg(data: &[u8]) -> (r: Result<JpegImage, String>)
    requires
        !jpeg::overflows(data@),
    ensures
        match r {
            Ok(image) => {
                &&& jpeg_outcome(data@) == Ok::<(u16, u16, JpegPixels), Seq<char>>(
                    (image.width, image.height, image.format),
                )
                &&& image.pixels@.len() >= image.width * image.height * pixel_bytes(image.format)
            },
            Err(words) => explains(words@, data@),
        },
{
    let mut decoder = jpeg_decoder::Decoder::new(data);
    decoder.set_color_transform(jpeg_decoder::ColorTransform::RGB);
    let pixels = match decoder.decode() {
        Ok(pixels) => pixels,
        Err(error) => return Err(format!("{:?}", error)),
    };
    let info = decoder.info().unwrap();
    let format = match info.pixel_format {
        jpeg_decoder::PixelFormat::RGB24 => JpegPixels::Rgb24,
        jpeg_decoder::PixelFormat::L8 => JpegPixels::L8,
        jpeg_decoder::PixelFormat::L16 => JpegPixels::L16,
        jpeg_decoder::PixelFormat::CMYK32 => JpegPixels::Cmyk32,
    };
    Ok(JpegImage { pixels, width: info.width, height: info.height, format })
}

/// The words where a frame is too large to be handed to the decoder.
pub const TOO_LARGE: &'static str =
    "scan of one component with more than 65528 lines or columns";

/// A frame that could not be decoded; the words of the decoder, or [`TOO_LARGE`].
#[derive(Debug, Clone)]
pub struct MjpegError {
    pub words: String,
}

/// How many bytes store a pixel.
pub open spec fn pixel_bytes(format: JpegPixels) -> int {
    match format {
        JpegPixels::Rgb24 => 3,
        JpegPixels::L8 => 1,
        JpegPixels::L16 => 2,
        JpegPixels::Cmyk32 => 4,
    }
}

/// A grey pixel.
pub open spec fn grey(level: u8) -> u32 {
    packed(level, level, level)
}

/// The pixel that starts at a position of the stored pixels, where it is there: colours are taken
/// as they are, and of all other formats the first byte is taken as a level of grey.
pub open spec fn stored_pixel(m: JpegModel, at: int) -> Option<u32> {
    if m.format == JpegPixels::Rgb24 {
        if at + 2 < m.pixels.len() {
            Some(packed(m.pixels[at], m.pixels[at + 1], m.pixels[at + 2]))
        } else {
            None
        }
    } else if at < m.pixels.len() {
        Some(grey(m.pixels[at]))
    } else {
        None
    }
}

/// The pixel of an image in a column of a row.
pub open spec fn image_pixel(m: JpegModel, x: int, y: int) -> Option<u32> {
    stored_pixel(m, (y * m.width + x) * pixel_bytes(m.format))
}

/// The smaller of two numbers.
pub open spec fn least(a: int, b: int) -> int {
    if a <= b {
        a
    } else {
        b
    }
}

/// A frame buffer with one pixel of an image written into it, where the image has it.
pub open spec fn with_pixel(buf: Seq<u32>, m: JpegModel, buf_w: int, x: int, y: int) -> Seq<u32> {
    match image_pixel(m, x, y) {
        Some(pixel) => put(buf, y * buf_w + x, pixel),
        None => buf,
    }
}

/// A frame buffer with the first `n` pixels of a row of an image written into it.
pub open spec fn with_image_row(buf: Seq<u32>, m: JpegModel, buf_w: int, y: int, n: nat) -> Seq<u32>
    decreases n,
{
    if n == 0 {
        buf
    } else {
        with_pixel(with_image_row(buf, m, buf_w, y, (n - 1) as nat), m, buf_w, n - 1, y)
    }
}

/// A frame buffer with the first `n` rows of an image written into it, each with `cols` pixels.
pub open spec fn with_image(buf: Seq<u32>, m: JpegModel, buf_w: int, cols: nat, n: nat) -> Seq<u32>
    decreases n,
{
    if n == 0 {
        buf
    } else {
        with_image_row(with_image(buf, m, buf_w, cols, (n - 1) as nat), m, buf_w, n - 1, cols)
    }
}

/// A frame buffer with an image written into it, cut to the size of the picture.
pub open spec fn with_picture(buf: Seq<u32>, m: JpegModel, width: int, height: int, buf_w: int) -> Seq<u32> {
    with_image(
        buf,
        m,
        buf_w,
        least(m.width as int, width) as nat,
        least(m.height as int, height) as nat,
    )
}

fn pixel_at(image: &JpegImage, x: usize, y: usize) -> (r: Option<u32>)
    requires
        x < image.width,
        y < image.height,
    ensures
        r == image_pixel(image@, x as int, y as int),
{
    let bytes: u64 = match image.format {
        JpegPixels::Rgb24 => 3,
        JpegPixels::L8 => 1,
        JpegPixels::L16 => 2,
        JpegPixels::Cmyk32 => 4,
    };
    proof {
        assert(0 <= y * image.width <= 0xffff * 0xffff) by (nonlinear_arith)
            requires
                0 <= y <= 0xffff,
                0 <= image.width <= 0xffff,
        ;
        let p = y * image.width + x;
        assert(0 <= p * bytes <= (0xffff * 0xffff + 0xffff) * 4) by (nonlinear_arith)
            requires
                0 <= p <= 0xffff * 0xffff + 0xffff,
                0 <= bytes <= 4,
        ;
    }
    let at: u64 = (y as u64 * image.width as u64 + x as u64) * bytes;
    let stored: u64 = image.pixels.len() as u64;
    if image.format == JpegPixels::Rgb24 {
        if at + 2 < stored {
            let i: usize = at as usize;
            Some(pack(image.pixels[i], image.pixels[i + 1], image.pixels[i + 2]))
        } else {
            None
        }
    } else if at < stored {
        let level: u8 = image.pixels[at as usize];
        Some(pack(level, level, level))
    } else {
        None
    }
}

/// Writes a decoded image to the top left corner of a frame buffer with rows of `buf_w` pixels. Of
/// an image that is larger than `width` by `height` the rest is left out.
pub fn draw_image(image: &JpegImage, buf: &mut [u32], width: usize, height: usize, buf_w: usize)
    ensures
        final(buf)@ == with_picture(
            old(buf)@,
            image@,
            width as int,
            height as int,
            buf_w as int,
        ),
{
    let cols: usize = if (image.width as usize) <= width {
        image.width as usize
    } else {
        width
    };
    let rows: usize = if (image.height as usize) <= height {
        image.height as usize
    } else {
        height
    };
    let ghost before = buf@;
    for y in 0..rows
        invariant
            cols <= image.width,
            rows <= image.height,
            buf@ == with_image(before, image@, buf_w as int, cols as nat, y as nat),
    {
        let ghost above = buf@;
        for x in 0..cols
            invariant
                y < rows,
                cols <= image.width,
                rows <= image.height,
                buf@ == with_image_row(above, image@, buf_w as int, y as int, x as nat),
        {
            if let Some(pixel) = pixel_at(image, x, y) {
                put_pixel(buf, y, buf_w, x, pixel);
            }
        }
    }
}

/// Decode MJPEG frame to a frame buffer with rows of `buf_w` pixels. A frame that cannot be decoded
/// leaves the buffer as it is, and so does one with a scan of one component that cannot be counted
/// in 16 bits. The values of the pixels are the decoder's.
pub fn decode_mjpeg(data: &[u8], buf: &mut [u32], width: usize, height: usize, buf_w: usize) -> (r:
    Result<(), MjpegError>)
    ensures
        match r {
            Ok(_) => !jpeg::overflows(data@) && exists|m: JpegModel| #[trigger]
                shows_frame(m, data@) && final(buf)@ == with_picture(
                    old(buf)@,
                    m,
                    width as int,
                    height as int,
                    buf_w as int,
                ),
            Err(error) => final(buf)@ == old(buf)@ && if jpeg::overflows(data@) {
                error.words@ == TOO_LARGE@
            } else {
                explains(error.words@, data@)
            },
        },
{
    if jpeg::has_overflow(data) {
        return Err(MjpegError { words: TOO_LARGE.to_owned() });
    }
    match decode_jpeg(data) {
        Ok(image) => {
            draw_image(&image, buf, width, height, buf_w);
            assert(shows_frame(image@, data@));
            Ok(())
        },
        Err(words) => Err(MjpegError { words }),
    }
}

// ---------------------------------------------------------------------------------------------
// Snapshots
// ---------------------------------------------------------------------------------------------

/// The three colours of a pixel, red first.
pub open spec fn colours(pixel: u32) -> Seq<u8> {
    seq![
        (pixel / 0x1_0000 % 0x100) as u8,
        (pixel / 0x100 % 0x100) as u8,
        (pixel % 0x100) as u8,
    ]
}

/// The colours of the first `n` pixels.
pub open spec fn all_colours(buf: Seq<u32>, n: nat) -> Seq<u8>
    decreases n,
{
    if n == 0 {
        Seq::empty()
    } else {
        all_colours(buf, (n - 1) as nat) + colours(buf[n - 1])
    }
}

/// The header of a picture file in the PPM format.
pub open spec fn ppm_header(width: nat, height: nat) -> Seq<char> {
    "P6\n"@ + text::decimal(width) + " "@ + text::decimal(height) + "\n255\n"@
}

/// A frame buffer as a picture file in the PPM format.
pub fn snapshot(buf: &[u32], width: usize, height: usize) -> (r: Vec<u8>)
    ensures
        r@ == encode_utf8(ppm_header(width as nat, height as nat)) + all_colours(
            buf@,
            buf@.len(),
        ),
{
    let mut header = "P6\n".to_owned();
    push_decimal(&mut header, width as u64);
    header.append(" ");
    push_decimal(&mut header, height as u64);
    header.append("\n255\n");
    let bytes = header.as_str().as_bytes();
    let mut out: Vec<u8> = Vec::new();
    for i in 0..bytes.len()
        invariant
            out@ == bytes@.take(i as int),
    {
        out.push(bytes[i]);
        proof {
            assert(out@ =~= bytes@.take(i + 1));
        }
    }
    let ghost head = out@;
    proof {
        assert(head =~= bytes@);
        assert(head + all_colours(buf@, 0) =~= head);
    }
    for i in 0..buf.len()
        invariant
            out@ == head + all_colours(buf@, i as nat),
    {
        let pixel: u32 = buf[i];
        out.push((pixel / 0x1_0000 % 0x100) as u8);
        out.push((pixel / 0x100 % 0x100) as u8);
        out.push((pixel % 0x100) as u8);
        proof {
            assert(out@ =~= head + all_colours(buf@, (i + 1) as nat));
        }
    }
    out
}

// ---------------------------------------------------------------------------------------------
// Laws
// ---------------------------------------------------------------------------------------------

/// A pixel without colour differences is a grey of its luma.
pub proof fn neutral_pixels_are_grey(y: u8)
    ensures
        uyvy_pixel(y, 128, 128) == grey(y),
{
}

/// The colours of a pixel are those that it was made of.
pub proof fn packing_keeps_colours(r: u8, g: u8, b: u8)
    ensures
        colours(packed(r, g, b)) == seq![r, g, b],
{
    let p = r * 0x1_0000 + g * 0x100 + b;
    assert(p as u32 == p);
    assert(p / 0x1_0000 == r && p / 0x1_0000 % 0x100 == r);
    assert(p / 0x100 % 0x100 == g);
    assert(p % 0x100 == b);
    assert(colours(packed(r, g, b)) =~= seq![r, g, b]);
}

/// A picture file holds three bytes for each pixel.
pub proof fn snapshots_hold_three_bytes_per_pixel(buf: Seq<u32>, n: nat)
    ensures
        all_colours(buf, n).len() == 3 * n,
    decreases n,
{
    if n > 0 {
        snapshots_hold_three_bytes_per_pixel(buf, (n - 1) as nat);
    }
}

proof fn lemma_uyvy_len(buf: Seq<u32>, data: Seq<u8>, width: int, buf_w: int, n: nat)
    ensures
        with_uyvy(buf, data, width, buf_w, n).len() == buf.len(),
    decreases n,
{
    if n > 0 {
        lemma_uyvy_len(buf, data, width, buf_w, (n - 1) as nat);
    }
}

proof fn lemma_place(row: int, col: int, buf_w: int)
    requires
        0 <= row,
        0 <= col < buf_w,
    ensures
        (row * buf_w + col) / buf_w == row,
        (row * buf_w + col) % buf_w == col,
{
    vstd::arithmetic::div_mod::lemma_fundamental_div_mod_converse(
        row * buf_w + col,
        buf_w,
        row,
        col,
    );
}

/// Where rows have an even number of pixels and fit the buffer, each pixel of a frame stands at its
/// own place: the pixel with the number `p`, counted from 0 along the rows, has the luma of its own
/// and the colour differences of its pair. A pixel whose pair is not in the frame is left as it is.
pub proof fn uyvy_pixels_stand_in_place(
    buf: Seq<u32>,
    data: Seq<u8>,
    width: int,
    buf_w: int,
    n: nat,
    p: int,
)
    requires
        0 < width <= buf_w,
        width % 2 == 0,
        0 <= p,
        (p / width) * buf_w + p % width < buf.len(),
    ensures
        with_uyvy(buf, data, width, buf_w, n)[(p / width) * buf_w + p % width] == if p < 2 * n {
            let src = 4 * (p / 2);
            uyvy_pixel(data[src + 1 + 2 * (p % 2)], data[src], data[src + 2])
        } else {
            buf[(p / width) * buf_w + p % width]
        },
    decreases n,
{
    lemma_uyvy_len(buf, data, width, buf_w, n);
    if n > 0 {
        uyvy_pixels_stand_in_place(buf, data, width, buf_w, (n - 1) as nat, p);
        lemma_uyvy_len(buf, data, width, buf_w, (n - 1) as nat);
        lemma_pair_places(p, 2 * (n - 1), width, buf_w);
    }
}

/// The two pixels of the pair that starts with number `q` stand side by side, and no other pixel
/// stands at their places.
proof fn lemma_pair_places(p: int, q: int, width: int, buf_w: int)
    requires
        0 < width <= buf_w,
        width % 2 == 0,
        0 <= p,
        0 <= q,
        q % 2 == 0,
    ensures
        q % width + 1 < width,
        0 <= (q / width) * buf_w + q % width,
        (p / width) * buf_w + p % width == (q / width) * buf_w + q % width <==> p == q,
        (p / width) * buf_w + p % width == (q / width) * buf_w + q % width + 1 <==> p == q + 1,
        0 <= (p / width) * buf_w + p % width,
{
    let (row, col) = (q / width, q % width);
    let (at_row, at_col) = (p / width, p % width);
    vstd::arithmetic::div_mod::lemma_mod_bound(p, width);
    vstd::arithmetic::div_mod::lemma_div_pos_is_pos(p, width);
    vstd::arithmetic::div_mod::lemma_fundamental_div_mod(p, width);
    vstd::arithmetic::div_mod::lemma_mod_bound(q, width);
    vstd::arithmetic::div_mod::lemma_div_pos_is_pos(q, width);
    vstd::arithmetic::div_mod::lemma_fundamental_div_mod(q, width);
    lemma_even_column(q, width);
    lemma_place(at_row, at_col, buf_w);
    lemma_place(row, col, buf_w);
    lemma_place(row, col + 1, buf_w);
    assert((q + 1) / width == row && (q + 1) % width == col + 1) by {
        assert(width * row == row * width) by (nonlinear_arith);
        vstd::arithmetic::div_mod::lemma_fundamental_div_mod_converse(q + 1, width, row, col + 1);
    }
    assert(0 <= row * buf_w && 0 <= at_row * buf_w) by (nonlinear_arith)
        requires
            0 <= row,
            0 <= at_row,
            0 < buf_w,
    ;
    assert(row * buf_w + (col + 1) == row * buf_w + col + 1);
}

proof fn lemma_even_column(q: int, width: int)
    requires
        q % 2 == 0,
        width % 2 == 0,
        width > 0,
        q >= 0,
    ensures
        q % width + 1 < width,
{
    vstd::arithmetic::div_mod::lemma_mod_bound(q, width);
    vstd::arithmetic::div_mod::lemma_fundamental_div_mod(q, width);
    let half = width / 2;
    let d = q / width;
    assert(width * d == 2 * (half * d)) by (nonlinear_arith)
        requires
            width == 2 * half,
    ;
    assert((q % width) % 2 == 0);
}

proof fn lemma_row_len(buf: Seq<u32>, m: JpegModel, buf_w: int, y: int, n: nat)
    ensures
        with_image_row(buf, m, buf_w, y, n).len() == buf.len(),
    decreases n,
{
    if n > 0 {
        lemma_row_len(buf, m, buf_w, y, (n - 1) as nat);
    }
}

proof fn lemma_image_len(buf: Seq<u32>, m: JpegModel, buf_w: int, cols: nat, n: nat)
    ensures
        with_image(buf, m, buf_w, cols, n).len() == buf.len(),
    decreases n,
{
    if n > 0 {
        lemma_image_len(buf, m, buf_w, cols, (n - 1) as nat);
        lemma_row_len(with_image(buf, m, buf_w, cols, (n - 1) as nat), m, buf_w, n - 1, cols);
    }
}

/// What the buffer holds at the place of a pixel after some pixels of a row were written.
proof fn lemma_row_pixel(buf: Seq<u32>, m: JpegModel, buf_w: int, row: int, n: nat, x: int, y: int)
    requires
        n <= buf_w,
        0 <= x < buf_w,
        0 <= y,
        0 <= row,
        y * buf_w + x < buf.len(),
    ensures
        with_image_row(buf, m, buf_w, row, n)[y * buf_w + x] == match image_pixel(m, x, y) {
            Some(pixel) if row == y && x < n => pixel,
            _ => buf[y * buf_w + x],
        },
    decreases n,
{
    lemma_place(y, x, buf_w);
    assert(0 <= y * buf_w) by (nonlinear_arith)
        requires
            0 <= y,
            0 < buf_w,
    ;
    if n > 0 {
        lemma_row_pixel(buf, m, buf_w, row, (n - 1) as nat, x, y);
        lemma_row_len(buf, m, buf_w, row, (n - 1) as nat);
        lemma_place(row, n - 1, buf_w);
    }
}

/// Where the rows of the cut image fit the rows of the buffer, each pixel of the image stands at
/// its own place, and what lies outside the image, or has no stored pixel, is left as it is.
pub proof fn image_pixels_stand_in_place(
    buf: Seq<u32>,
    m: JpegModel,
    buf_w: int,
    cols: nat,
    n: nat,
    x: int,
    y: int,
)
    requires
        cols <= buf_w,
        0 <= x < buf_w,
        0 <= y,
        y * buf_w + x < buf.len(),
    ensures
        with_image(buf, m, buf_w, cols, n)[y * buf_w + x] == match image_pixel(m, x, y) {
            Some(pixel) if y < n && x < cols => pixel,
            _ => buf[y * buf_w + x],
        },
    decreases n,
{
    if n > 0 {
        let above = with_image(buf, m, buf_w, cols, (n - 1) as nat);
        image_pixels_stand_in_place(buf, m, buf_w, cols, (n - 1) as nat, x, y);
        lemma_image_len(buf, m, buf_w, cols, (n - 1) as nat);
        lemma_row_pixel(above, m, buf_w, n - 1, cols, x, y);
    }
}

/// Every pixel of a decoded frame is there: no column of a row is left out.
pub proof fn decoded_frames_have_every_pixel(m: JpegModel, data: Seq<u8>, x: int, y: int)
    requires
        shows_frame(m, data),
        0 <= x < m.width,
        0 <= y < m.height,
    ensures
        image_pixel(m, x, y) is Some,
{
    let k = pixel_bytes(m.format);
    let w = m.width as int;
    let h = m.height as int;
    assert(y * w + x + 1 <= w * h) by (nonlinear_arith)
        requires
            0 <= x < w,
            0 <= y < h,
    ;
    assert((y * w + x) * k + k <= w * h * k) by (nonlinear_arith)
        requires
            y * w + x + 1 <= w * h,
            k > 0,
    ;
}

/// Red depends on the brightness and the second colour difference, and blue on the brightness and the
/// first one. Each is the whole part of its formula, cut to a byte.
pub proof fn red_and_blue_follow_their_difference(y: u8, u: u8, v: u8)
    ensures
        ({
            let red = 1000 * y + 1402 * (v - 128);
            let blue = 1000 * y + 1772 * (u - 128);
            &&& red < 0 ==> red_of(y, v) == 0
            &&& red >= 255_000 ==> red_of(y, v) == 255
            &&& 0 <= red < 255_000 ==> 1000 * red_of(y, v) <= red < 1000 * red_of(y, v) + 1000
            &&& blue < 0 ==> blue_of(y, u) == 0
            &&& blue >= 255_000 ==> blue_of(y, u) == 255
            &&& 0 <= blue < 255_000 ==> 1000 * blue_of(y, u) <= blue < 1000 * blue_of(y, u) + 1000
        }),
{
}

/// Green takes from the brightness what both colour differences give. It is the whole part of its
/// formula, cut to a byte, and one less at the one place where the formula is a whole number and was
/// not reached.
pub proof fn green_follows_both_differences(y: u8, u: u8, v: u8)
    requires
        !(u == 28 && v == 228),
    ensures
        ({
            let green = 1_000_000 * y - 344_136 * (u - 128) - 714_136 * (v - 128);
            let g = green_of(y, u, v);
            &&& green < 0 ==> g == 0
            &&& green >= 255_000_000 ==> g == 255
            &&& 0 <= green < 255_000_000 ==> 1_000_000 * g <= green < 1_000_000 * g + 1_000_000
        }),
        green_of(y, 28, 228) == if y >= 222 {
            y - 38
        } else if y >= 37 {
            y - 37
        } else {
            0int
        },
{
}

/// A pixel holds red above green and green above blue, each in a byte of its own, and nothing above
/// them.
pub proof fn red_is_the_highest_colour(y: u8, u: u8, v: u8)
    ensures
        uyvy_pixel(y, u, v) == 0x1_0000 * red_of(y, v) + 0x100 * green_of(y, u, v) + blue_of(y, u),
        grey(y) == 0x01_0101 * y,
{
}

/// A frame is shown as far as its bytes and its size reach, in pairs of pixels of four bytes each.
pub proof fn frames_are_shown_in_pairs(data_len: int, width: int, height: int)
    requires
        data_len >= 0,
    ensures
        4 * uyvy_groups(data_len, width, height) <= data_len,
        2 * uyvy_groups(data_len, width, height) <= width * height,
        4 * (uyvy_groups(data_len, width, height) + 1) > data_len || 2 * (uyvy_groups(
            data_len,
            width,
            height,
        ) + 1) > width * height,
{
}

/// The pixel at a place of a decoded picture is made of the bytes at this place: three of them, the
/// red one first, in a picture of colours; otherwise the first one, as a grey.
pub proof fn decoded_pixels_are_read_in_place(m: JpegModel, x: int, y: int)
    requires
        0 <= x < m.width,
        0 <= y < m.height,
        m.pixels.len() >= m.width * m.height * pixel_bytes(m.format),
    ensures
        ({
            let i = y * m.width + x;
            let p = m.pixels;
            match m.format {
                JpegPixels::Rgb24 => image_pixel(m, x, y) == Some(
                    (0x1_0000 * p[3 * i] + 0x100 * p[3 * i + 1] + p[3 * i + 2]) as u32,
                ),
                JpegPixels::L8 => image_pixel(m, x, y) == Some((0x01_0101 * p[i]) as u32),
                JpegPixels::L16 => image_pixel(m, x, y) == Some((0x01_0101 * p[2 * i]) as u32),
                JpegPixels::Cmyk32 => image_pixel(m, x, y) == Some((0x01_0101 * p[4 * i]) as u32),
            }
        }),
{
    let k = pixel_bytes(m.format);
    let w = m.width as int;
    let h = m.height as int;
    let i = y * w + x;
    assert(i + 1 <= w * h) by (nonlinear_arith)
        requires
            i == y * w + x,
            0 <= x < w,
            0 <= y < h,
    ;
    assert(i * k + k <= w * h * k) by (nonlinear_arith)
        requires
            i + 1 <= w * h,
            k > 0,
    ;
    assert(i >= 0) by (nonlinear_arith)
        requires
            i == y * w + x,
            0 <= x < w,
            0 <= y,
    ;
}

/// A decoded picture is drawn from the upper left corner: a place of the window that the picture
/// reaches shows its pixel, and one that it does not reach stays as it was.
pub proof fn pictures_are_drawn_from_the_corner(
    buf: Seq<u32>,
    m: JpegModel,
    width: int,
    height: int,
    buf_w: int,
    x: int,
    y: int,
)
    requires
        0 <= width <= buf_w,
        0 <= height,
        0 <= x < buf_w,
        0 <= y,
        y * buf_w + x < buf.len(),
        m.pixels.len() >= m.width * m.height * pixel_bytes(m.format),
    ensures
        x < width && x < m.width && y < height && y < m.height ==> Some(
            with_picture(buf, m, width, height, buf_w)[y * buf_w + x],
        ) == image_pixel(m, x, y),
        x >= width || x >= m.width || y >= height || y >= m.height ==> with_picture(
            buf,
            m,
            width,
            height,
            buf_w,
        )[y * buf_w + x] == buf[y * buf_w + x],
{
    image_pixels_stand_in_place(
        buf,
        m,
        buf_w,
        least(m.width as int, width) as nat,
        least(m.height as int, height) as nat,
        x,
        y,
    );
    if x < m.width && y < m.height {
        decoded_pixels_are_read_in_place(m, x, y);
    }
}

/// A picture file holds the colours of each pixel at its place, red first.
pub proof fn snapshots_hold_colours_in_place(buf: Seq<u32>, n: nat, i: int)
    requires
        0 <= i < n,
    ensures
        all_colours(buf, n)[3 * i] == buf[i] / 0x1_0000 % 0x100,
        all_colours(buf, n)[3 * i + 1] == buf[i] / 0x100 % 0x100,
        all_colours(buf, n)[3 * i + 2] == buf[i] % 0x100,
    decreases n,
{
    snapshots_hold_three_bytes_per_pixel(buf, (n - 1) as nat);
    if i < n - 1 {
        snapshots_hold_colours_in_place(buf, (n - 1) as nat, i);
    }
}

/// The header of a picture file gives the width before the height.
pub proof fn headers_give_width_and_height(width: nat, height: nat)
    ensures
        ppm_header(width, height) == seq!['P', '6', '\n'] + text::decimal(width) + seq![' ']
            + text::decimal(height) + seq!['\n', '2', '5', '5', '\n'],
{
    reveal_strlit("P6\n");
    reveal_strlit(" ");
    reveal_strlit("\n255\n");
    assert("P6\n"@ =~= seq!['P', '6', '\n']);
    assert(" "@ =~= seq![' ']);
    assert("\n255\n"@ =~= seq!['\n', '2', '5', '5', '\n']);
}

/// A decoded picture shows its own width, its own height, its own format and its own bytes.
pub proof fn images_show_their_size(image: JpegImage)
    ensures
        image@.width == image.width && image@.height == image.height && image@.format == image.format
            && image@.pixels == image.pixels@,
{
}

} // verus!
