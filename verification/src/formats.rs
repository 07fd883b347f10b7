//! Pixel formats, video modes and the verdicts of a format probe.

use crate::bytes;
use crate::text::{self, from_utf8_lossy};
use vstd::prelude::*;
use vstd::string::*;
use vstd::utf8::*;

verus! {

/// V4L2 pixel format fourcc codes
#[derive(Debug, Clone, Copy, PartialEq, Eq, Hash, Structural)]
pub enum PixelFormat {
    Yuyv,
    Uyvy,
    Nv12,
    Yu12,
    Mjpeg,
    H264,
    Unknown(u32),
}

/// The fourcc code of four characters: the first one stands in the least significant byte.
pub open spec fn fourcc(a: char, b: char, c: char, d: char) -> u32 {
    (a as int + 0x100 * (b as int) + 0x1_0000 * (c as int) + 0x100_0000 * (d as int)) as u32
}

/// The fourcc code of a pixel format.
pub open spec fn fourcc_of(format: PixelFormat) -> u32 {
    match format {
        PixelFormat::Yuyv => fourcc('Y', 'U', 'Y', 'V'),
        PixelFormat::Uyvy => fourcc('U', 'Y', 'V', 'Y'),
        PixelFormat::Nv12 => fourcc('N', 'V', '1', '2'),
        PixelFormat::Yu12 => fourcc('Y', 'U', '1', '2'),
        PixelFormat::Mjpeg => fourcc('M', 'J', 'P', 'G'),
        PixelFormat::H264 => fourcc('H', '2', '6', '4'),
        PixelFormat::Unknown(code) => code,
    }
}

/// The pixel format that a fourcc code denotes.
pub open spec fn format_of(code: u32) -> PixelFormat {
    if code == fourcc('Y', 'U', 'Y', 'V') {
        PixelFormat::Yuyv
    } else if code == fourcc('U', 'Y', 'V', 'Y') {
        PixelFormat::Uyvy
    } else if code == fourcc('N', 'V', '1', '2') {
        PixelFormat::Nv12
    } else if code == fourcc('Y', 'U', '1', '2') {
        PixelFormat::Yu12
    } else if code == fourcc('M', 'J', 'P', 'G') {
        PixelFormat::Mjpeg
    } else if code == fourcc('H', '2', '6', '4') {
        PixelFormat::H264
    } else {
        PixelFormat::Unknown(code)
    }
}

/// The four characters of a pixel format. The code of an unknown format is read as UTF-8, as far
/// as it is valid.
pub open spec fn format_text(format: PixelFormat) -> Seq<char> {
    match format {
        PixelFormat::Yuyv => "YUYV"@,
        PixelFormat::Uyvy => "UYVY"@,
        PixelFormat::Nv12 => "NV12"@,
        PixelFormat::Yu12 => "YU12"@,
        PixelFormat::Mjpeg => "MJPG"@,
        PixelFormat::H264 => "H264"@,
        PixelFormat::Unknown(code) => text::lossy_text(bytes::u32_bytes(bytes::ByteOrder::Little, code)),
    }
}

/// The storage of one pixel in hundredths of a byte, for uncompressed formats.
pub open spec fn pixel_hundredths(format: PixelFormat) -> Option<u64> {
    match format {
        PixelFormat::Yuyv | PixelFormat::Uyvy => Some(200),
        PixelFormat::Nv12 | PixelFormat::Yu12 => Some(150),
        _ => None,
    }
}

const CODE_YUYV: u32 = 0x5659_5559;

const CODE_UYVY: u32 = 0x5956_5955;

const CODE_NV12: u32 = 0x3231_564E;

const CODE_YU12: u32 = 0x3231_5559;

const CODE_MJPG: u32 = 0x4750_4A4D;

const CODE_H264: u32 = 0x3436_3248;

/// The bytes of an ASCII text of four characters are its fourcc code, and decode to the text.
proof fn lemma_ascii_code(text: Seq<char>, code: u32)
    requires
        text.len() == 4,
        is_ascii_chars(text),
        code == fourcc(text[0], text[1], text[2], text[3]),
    ensures
        valid_utf8(bytes::u32_bytes(bytes::ByteOrder::Little, code)),
        decode_utf8(bytes::u32_bytes(bytes::ByteOrder::Little, code)) == text,
{
    is_ascii_chars_encode_utf8(text);
    encode_utf8_valid_utf8(text);
    encode_utf8_decode_utf8(text);
    let b = bytes::u32_bytes(bytes::ByteOrder::Little, code);
    assert(forall|i: int| 0 <= i < 4 ==> (#[trigger] text[i]) as int <= 127);
    let (a0, a1, a2, a3) = (text[0] as int, text[1] as int, text[2] as int, text[3] as int);
    assert(code as int == a0 + 0x100 * a1 + 0x1_0000 * a2 + 0x100_0000 * a3);
    lemma_code_digits(code, a0, a1, a2, a3);
    assert(b =~= encode_utf8(text));
}

proof fn lemma_code_digits(code: u32, a0: int, a1: int, a2: int, a3: int)
    requires
        0 <= a0 <= 127,
        0 <= a1 <= 127,
        0 <= a2 <= 127,
        0 <= a3 <= 127,
        code as int == a0 + 0x100 * a1 + 0x1_0000 * a2 + 0x100_0000 * a3,
    ensures
        code % 0x100 == a0,
        code / 0x100 % 0x100 == a1,
        code / 0x1_0000 % 0x100 == a2,
        code / 0x100_0000 % 0x100 == a3,
{
}

impl PixelFormat {
    /// The pixel format that a fourcc code denotes.
    pub fn from_fourcc(code: u32) -> (r: Self)
        ensures
            r == format_of(code),
    {
        if code == CODE_YUYV {
            PixelFormat::Yuyv
        } else if code == CODE_UYVY {
            PixelFormat::Uyvy
        } else if code == CODE_NV12 {
            PixelFormat::Nv12
        } else if code == CODE_YU12 {
            PixelFormat::Yu12
        } else if code == CODE_MJPG {
            PixelFormat::Mjpeg
        } else if code == CODE_H264 {
            PixelFormat::H264
        } else {
            PixelFormat::Unknown(code)
        }
    }

    /// The fourcc code.
    pub fn to_fourcc(&self) -> (r: u32)
        ensures
            r == fourcc_of(*self),
    {
        match self {
            PixelFormat::Yuyv => CODE_YUYV,
            PixelFormat::Uyvy => CODE_UYVY,
            PixelFormat::Nv12 => CODE_NV12,
            PixelFormat::Yu12 => CODE_YU12,
            PixelFormat::Mjpeg => CODE_MJPG,
            PixelFormat::H264 => CODE_H264,
            PixelFormat::Unknown(code) => *code,
        }
    }

    /// The four characters of the fourcc code.
    pub fn fourcc_str(&self) -> (r: String)
        ensures
            r@ == format_text(*self),
    {
        let mut buf = [0u8; 4];
        bytes::write_u32(bytes::ByteOrder::Little, &mut buf, 0, self.to_fourcc());
        proof {
            assert(buf@ =~= bytes::u32_bytes(bytes::ByteOrder::Little, fourcc_of(*self)));
            reveal_strlit("YUYV");
            reveal_strlit("UYVY");
            reveal_strlit("NV12");
            reveal_strlit("YU12");
            reveal_strlit("MJPG");
            reveal_strlit("H264");
            if !(self is Unknown) {
                lemma_ascii_code(format_text(*self), fourcc_of(*self));
            }
        }
        from_utf8_lossy(buf.as_slice())
    }

    /// Storage per pixel for uncompressed formats, in hundredths of a byte: 200 for the packed
    /// 4:2:2 formats, 150 for the planar 4:2:0 formats.
    pub fn bytes_per_pixel(&self) -> (r: Option<u64>)
        ensures
            r == pixel_hundredths(*self),
    {
        match self {
            PixelFormat::Yuyv | PixelFormat::Uyvy => Some(200),
            PixelFormat::Nv12 | PixelFormat::Yu12 => Some(150),
            PixelFormat::Mjpeg | PixelFormat::H264 => None,
            PixelFormat::Unknown(_) => None,
        }
    }

    /// The format as it appears in reports: its four characters.
    pub fn to_text(&self) -> (r: String)
        ensures
            r@ == format_text(*self),
    {
        self.fourcc_str()
    }
}

/// A specific video mode (format + resolution + framerate)
#[derive(Debug, Clone, Copy, PartialEq, Eq, Hash, Structural)]
pub struct VideoMode {
    pub format: PixelFormat,
    pub width: u32,
    pub height: u32,
    pub fps_numerator: u32,
    pub fps_denominator: u32,
}

/// The product that the bandwidth of a mode is computed from.
pub open spec fn bandwidth_product(mode: VideoMode, hundredths: u64) -> int {
    mode.width * mode.height * hundredths * mode.fps_denominator
}

/// The storage of one pixel that a compressed format is estimated to need on average, in
/// hundredths of a byte: a tenth of a packed 4:2:2 pixel for MJPEG, a fiftieth for H.264.
pub open spec fn estimated_hundredths(format: PixelFormat) -> Option<u64> {
    match format {
        PixelFormat::Mjpeg => Some(20),
        PixelFormat::H264 => Some(4),
        _ => None,
    }
}

/// The bandwidth of a mode whose pixels take so many hundredths of a byte, in bytes per second.
pub open spec fn bandwidth(mode: VideoMode, hundredths: u64) -> int {
    bandwidth_product(mode, hundredths) / (mode.fps_numerator * 100)
}

/// The bandwidth of a compressed mode in bytes per second, as estimated, and no more than 64 bits
/// hold. A mode with a zero frame interval has no estimate.
pub open spec fn estimated_bandwidth(mode: VideoMode) -> Option<u64> {
    match estimated_hundredths(mode.format) {
        Some(hundredths) if mode.fps_numerator > 0 => if bandwidth(mode, hundredths) <= u64::MAX {
            Some(bandwidth(mode, hundredths) as u64)
        } else {
            Some(u64::MAX)
        },
        _ => None,
    }
}

/// Whether the bandwidth of a mode can be computed in 64 bits: uncompressed formats need a frame
/// interval other than zero and a product that fits.
pub open spec fn bandwidth_defined(mode: VideoMode) -> bool {
    match pixel_hundredths(mode.format) {
        Some(hundredths) => mode.fps_numerator > 0 && bandwidth_product(mode, hundredths)
            <= u64::MAX,
        None => true,
    }
}

/// Whether a mode delivers at least `wanted - 1` frames per second. The frame interval of a mode
/// is `fps_numerator / fps_denominator` seconds; a mode with a zero interval counts as zero
/// frames per second.
pub open spec fn reaches_rate(mode: VideoMode, wanted: u32) -> bool {
    if mode.fps_numerator == 0 {
        wanted <= 1
    } else {
        mode.fps_denominator >= (wanted - 1) * mode.fps_numerator
    }
}

impl VideoMode {
    /// Whether [`VideoMode::bandwidth_bytes_per_sec`] can be computed in 64 bits.
    pub fn has_bandwidth(&self) -> (r: bool)
        ensures
            r == bandwidth_defined(*self),
    {
        match self.format.bytes_per_pixel() {
            Some(hundredths) => {
                proof {
                    lemma_product_fits_u128(*self, hundredths);
                }
                let pixels: u128 = self.width as u128 * self.height as u128;
                let per_frame: u128 = pixels * hundredths as u128;
                let total: u128 = per_frame * self.fps_denominator as u128;
                self.fps_numerator > 0 && total <= u64::MAX as u128
            },
            None => true,
        }
    }

    /// Bandwidth in bytes/sec for uncompressed, estimated for compressed
    pub fn bandwidth_bytes_per_sec(&self) -> (r: Option<u64>)
        requires
            bandwidth_defined(*self),
        ensures
            match pixel_hundredths(self.format) {
                Some(hundredths) => r == Some(bandwidth(*self, hundredths) as u64),
                None => r == estimated_bandwidth(*self),
            },
    {
        match self.format.bytes_per_pixel() {
            Some(hundredths) => {
                proof {
                    lemma_product_fits_u128(*self, hundredths);
                }
                let pixels: u128 = self.width as u128 * self.height as u128;
                let per_frame: u128 = pixels * hundredths as u128;
                let total: u128 = per_frame * self.fps_denominator as u128;
                let divisor: u64 = self.fps_numerator as u64 * 100;
                Some(total as u64 / divisor)
            },
            None => self.estimate(),
        }
    }

    fn estimate(&self) -> (r: Option<u64>)
        ensures
            r == estimated_bandwidth(*self),
    {
        let hundredths: u64 = match self.format {
            PixelFormat::Mjpeg => 20,
            PixelFormat::H264 => 4,
            _ => {
                return None;
            },
        };
        if self.fps_numerator == 0 {
            return None;
        }
        proof {
            lemma_product_fits_u128(*self, hundredths);
        }
        let pixels: u128 = self.width as u128 * self.height as u128;
        let per_frame: u128 = pixels * hundredths as u128;
        let total: u128 = per_frame * self.fps_denominator as u128;
        let divisor: u128 = self.fps_numerator as u128 * 100;
        let rate: u128 = total / divisor;
        if rate <= u64::MAX as u128 {
            Some(rate as u64)
        } else {
            Some(u64::MAX)
        }
    }

    /// Whether the mode delivers at least `wanted - 1` frames per second.
    pub fn delivers(&self, wanted: u32) -> (r: bool)
        ensures
            r == reaches_rate(*self, wanted),
    {
        if self.fps_numerator == 0 {
            wanted <= 1
        } else if wanted == 0 {
            proof {
                assert((wanted - 1) * self.fps_numerator <= 0) by (nonlinear_arith)
                    requires
                        wanted == 0,
                        self.fps_numerator >= 0,
                ;
            }
            true
        } else {
            proof {
                assert((wanted - 1) * self.fps_numerator <= 0xffff_ffff * 0xffff_ffff)
                    by (nonlinear_arith)
                    requires
                        0 <= wanted - 1 <= 0xffff_ffff,
                        0 <= self.fps_numerator <= 0xffff_ffff,
                ;
            }
            self.fps_denominator as u64 >= (wanted - 1) as u64 * self.fps_numerator as u64
        }
    }
}

proof fn lemma_product_fits_u128(mode: VideoMode, hundredths: u64)
    requires
        hundredths <= 200,
    ensures
        0 <= mode.width * mode.height <= 0xffff_ffff * 0xffff_ffff,
        0 <= mode.width * mode.height * hundredths <= 0xffff_ffff * 0xffff_ffff * 200,
        0 <= bandwidth_product(mode, hundredths) <= u128::MAX,
{
    let (w, h, d, n) = (
        mode.width as int,
        mode.height as int,
        mode.fps_denominator as int,
        hundredths as int,
    );
    assert(0 <= w * h <= 0xffff_ffff * 0xffff_ffff) by (nonlinear_arith)
        requires
            0 <= w <= 0xffff_ffff,
            0 <= h <= 0xffff_ffff,
    ;
    let p = w * h;
    assert(0 <= p * n <= 0xffff_ffff * 0xffff_ffff * 200) by (nonlinear_arith)
        requires
            0 <= p <= 0xffff_ffff * 0xffff_ffff,
            0 <= n <= 200,
    ;
    let q = p * n;
    assert(0 <= q * d <= 0xffff_ffff * 0xffff_ffff * 200 * 0xffff_ffff) by (nonlinear_arith)
        requires
            0 <= q <= 0xffff_ffff * 0xffff_ffff * 200,
            0 <= d <= 0xffff_ffff,
    ;
}

/// Result of probing a specific format for actual frame delivery
#[derive(Debug, Clone)]
pub struct FormatProbeResult {
    pub mode: VideoMode,
    pub negotiation_ok: bool,
    pub stream_started: bool,
    pub frames_received: u32,
    pub first_frame_nonzero: bool,
    pub frame_size_consistent: bool,
    /// Mean time between frames in microseconds, where frames were timed.
    pub avg_frame_interval_us: Option<u64>,
    pub error: Option<String>,
    pub verdict: FormatVerdict,
}

#[derive(Debug, Clone, Copy, PartialEq, Eq, Structural)]
pub enum FormatVerdict {
    /// Format works correctly
    Working,
    /// Format negotiates but produces garbage
    GarbageFrames,
    /// Format fails to negotiate
    NegotiationFailed,
    /// Stream starts but no frames arrive
    NoFrames,
    /// Stream is unstable (variable frame sizes, timing jitter)
    Unstable,
    /// Not tested
    Untested,
}

/// A verdict as it appears in reports.
pub open spec fn verdict_text(verdict: FormatVerdict) -> Seq<char> {
    match verdict {
        FormatVerdict::Working => "WORKING"@,
        FormatVerdict::GarbageFrames => "GARBAGE FRAMES"@,
        FormatVerdict::NegotiationFailed => "NEGOTIATION FAILED"@,
        FormatVerdict::NoFrames => "NO FRAMES"@,
        FormatVerdict::Unstable => "UNSTABLE"@,
        FormatVerdict::Untested => "UNTESTED"@,
    }
}

impl FormatVerdict {
    /// The verdict as it appears in reports.
    pub fn to_text(&self) -> (r: &'static str)
        ensures
            r@ == verdict_text(*self),
    {
        match self {
            FormatVerdict::Working => "WORKING",
            FormatVerdict::GarbageFrames => "GARBAGE FRAMES",
            FormatVerdict::NegotiationFailed => "NEGOTIATION FAILED",
            FormatVerdict::NoFrames => "NO FRAMES",
            FormatVerdict::Unstable => "UNSTABLE",
            FormatVerdict::Untested => "UNTESTED",
        }
    }
}

// ---------------------------------------------------------------------------------------------
// Laws
// ---------------------------------------------------------------------------------------------

/// A fourcc code survives the way through [`PixelFormat::from_fourcc`] and back.
pub proof fn fourcc_round_trip(code: u32)
    ensures
        fourcc_of(format_of(code)) == code,
{
}

/// A pixel format that is not written as unknown survives the way through
/// [`PixelFormat::to_fourcc`] and back.
pub proof fn format_round_trip(format: PixelFormat)
    requires
        !(format is Unknown),
    ensures
        format_of(fourcc_of(format)) == format,
{
}

/// Compressed and unknown formats have no fixed storage per pixel.
pub proof fn compressed_formats_have_no_pixel_size(format: PixelFormat)
    requires
        format == PixelFormat::Mjpeg || format == PixelFormat::H264 || format is Unknown,
    ensures
        pixel_hundredths(format) is None,
{
}

/// A mode that reaches a frame rate reaches every lower one.
pub proof fn rates_are_monotone(mode: VideoMode, high: u32, low: u32)
    requires
        reaches_rate(mode, high),
        low <= high,
    ensures
        reaches_rate(mode, low),
{
    if mode.fps_numerator > 0 {
        assert((low - 1) * mode.fps_numerator <= (high - 1) * mode.fps_numerator)
            by (nonlinear_arith)
            requires
                low <= high,
                mode.fps_numerator > 0,
        ;
    }
}

/// The four letters of a known format are the bytes of its fourcc code, the first one lowest.
pub proof fn letters_are_the_code(format: PixelFormat)
    requires
        !(format is Unknown),
    ensures
        format_text(format).len() == 4,
        fourcc_of(format) as int == format_text(format)[0] as int + 0x100 * (format_text(
            format,
        )[1] as int) + 0x1_0000 * (format_text(format)[2] as int) + 0x100_0000 * (format_text(
            format,
        )[3] as int),
        format == PixelFormat::Yuyv <==> fourcc_of(format) == 0x5659_5559,
        format == PixelFormat::Uyvy <==> fourcc_of(format) == 0x5956_5955,
        format == PixelFormat::Nv12 <==> fourcc_of(format) == 0x3231_564E,
        format == PixelFormat::Yu12 <==> fourcc_of(format) == 0x3231_5559,
        format == PixelFormat::Mjpeg <==> fourcc_of(format) == 0x4750_4A4D,
        format == PixelFormat::H264 <==> fourcc_of(format) == 0x3436_3248,
{
    reveal_strlit("YUYV");
    reveal_strlit("UYVY");
    reveal_strlit("NV12");
    reveal_strlit("YU12");
    reveal_strlit("MJPG");
    reveal_strlit("H264");
}

/// A code that no known format has is kept as it is.
pub proof fn other_codes_stay_unknown(code: u32)
    ensures
        format_of(code) is Unknown <==> forall|format: PixelFormat|
            !(format is Unknown) ==> #[trigger] fourcc_of(format) != code,
        format_of(code) matches PixelFormat::Unknown(kept) ==> kept == code,
{
    if !(format_of(code) is Unknown) {
        assert(fourcc_of(format_of(code)) == code);
    }
}

/// Two packed 4:2:2 pixels take four bytes, two planar 4:2:0 pixels three.
pub proof fn pairs_of_pixels_take_whole_bytes(format: PixelFormat)
    ensures
        (pixel_hundredths(format) matches Some(n) && 2 * n == 4 * 100) <==> format == PixelFormat::Yuyv
            || format == PixelFormat::Uyvy,
        (pixel_hundredths(format) matches Some(n) && 2 * n == 3 * 100) <==> format == PixelFormat::Nv12
            || format == PixelFormat::Yu12,
{
}

/// The bandwidth is the number of whole bytes that the frames of a second take: a second has
/// `fps_denominator / fps_numerator` frames, and a frame `width * height` pixels.
pub proof fn bandwidth_is_the_bytes_of_a_second(mode: VideoMode, hundredths: u64)
    requires
        mode.fps_numerator > 0,
    ensures
        bandwidth(mode, hundredths) * (100 * mode.fps_numerator) <= mode.width * mode.height
            * hundredths * mode.fps_denominator,
        mode.width * mode.height * hundredths * mode.fps_denominator < (bandwidth(mode, hundredths) + 1)
            * (100 * mode.fps_numerator),
{
    let total = mode.width * mode.height * hundredths * mode.fps_denominator;
    let d = mode.fps_numerator * 100;
    let b = total / d;
    assert(b * d <= total < (b + 1) * d) by (nonlinear_arith)
        requires
            d > 0,
            b == total / d,
    ;
}

/// MJPEG is estimated to take a tenth, and H.264 a fiftieth, of the bytes that the same frames take
/// in a packed 4:2:2 format; no other format has an estimate, and no mode without a frame interval.
pub proof fn compression_is_estimated(mode: VideoMode)
    ensures
        mode.fps_numerator == 0 ==> estimated_bandwidth(mode) is None,
        mode.format == PixelFormat::Mjpeg && mode.fps_numerator > 0 && 10 * bandwidth(mode, 20)
            <= u64::MAX ==> (estimated_bandwidth(mode) matches Some(rate) && 10 * rate <= bandwidth(
            mode,
            200,
        ) < 10 * rate + 10),
        mode.format == PixelFormat::H264 && mode.fps_numerator > 0 && 50 * bandwidth(mode, 4)
            <= u64::MAX ==> (estimated_bandwidth(mode) matches Some(rate) && 50 * rate <= bandwidth(
            mode,
            200,
        ) < 50 * rate + 50),
        mode.format != PixelFormat::Mjpeg && mode.format != PixelFormat::H264 ==> estimated_bandwidth(
            mode,
        ) is None,
{
    if mode.fps_numerator > 0 {
        lemma_product_fits_u128(mode, 20);
        lemma_product_fits_u128(mode, 4);
        let x = mode.width * mode.height * mode.fps_denominator;
        let d = 100 * mode.fps_numerator;
        let (a, b, c) = (bandwidth(mode, 200), bandwidth(mode, 20), bandwidth(mode, 4));
        bandwidth_is_the_bytes_of_a_second(mode, 200);
        bandwidth_is_the_bytes_of_a_second(mode, 20);
        bandwidth_is_the_bytes_of_a_second(mode, 4);
        lemma_pixels_scale(mode, 200);
        lemma_pixels_scale(mode, 20);
        lemma_pixels_scale(mode, 4);
        assert(10 * b <= a < 10 * b + 10) by (nonlinear_arith)
            requires
                d > 0,
                a * d <= 200 * x < (a + 1) * d,
                b * d <= 20 * x < (b + 1) * d,
        ;
        assert(50 * c <= a < 50 * c + 50) by (nonlinear_arith)
            requires
                d > 0,
                a * d <= 200 * x < (a + 1) * d,
                c * d <= 4 * x < (c + 1) * d,
        ;
        assert(b >= 0 && c >= 0) by (nonlinear_arith)
            requires
                d > 0,
                0 <= 20 * x < (b + 1) * d,
                0 <= 4 * x < (c + 1) * d,
        ;
    }
}

proof fn lemma_pixels_scale(mode: VideoMode, n: u64)
    ensures
        mode.width * mode.height * n * mode.fps_denominator == n * (mode.width * mode.height
            * mode.fps_denominator),
        0 <= mode.width * mode.height * mode.fps_denominator,
{
    let (w, h, f, m) = (
        mode.width as int,
        mode.height as int,
        mode.fps_denominator as int,
        n as int,
    );
    assert(w * h * m * f == m * (w * h * f)) by (nonlinear_arith);
    assert(0 <= w * h * f) by (nonlinear_arith)
        requires
            w >= 0,
            h >= 0,
            f >= 0,
    ;
}

/// A mode of exactly so many frames per second delivers them and one more, and not two more.
pub proof fn rates_are_reached_within_one_frame(mode: VideoMode, fps: u32)
    requires
        mode.fps_numerator > 0,
        mode.fps_denominator == fps * mode.fps_numerator,
        fps < u32::MAX - 1,
    ensures
        reaches_rate(mode, fps),
        reaches_rate(mode, (fps + 1) as u32),
        !reaches_rate(mode, (fps + 2) as u32),
{
    let n = mode.fps_numerator as int;
    assert((fps - 1) * n == fps * n - n && (fps + 2 - 1) * n == fps * n + n && (fps + 1 - 1) * n
        == fps * n) by (nonlinear_arith);
}

/// No two verdicts have the same text.
pub proof fn verdicts_are_told_apart(a: FormatVerdict, b: FormatVerdict)
    requires
        verdict_text(a) == verdict_text(b),
    ensures
        a == b,
{
    reveal_strlit("WORKING");
    reveal_strlit("GARBAGE FRAMES");
    reveal_strlit("NEGOTIATION FAILED");
    reveal_strlit("NO FRAMES");
    reveal_strlit("UNSTABLE");
    reveal_strlit("UNTESTED");
    assert("UNSTABLE"@[2] == 'S');
    assert("UNTESTED"@[2] == 'T');
    assert("WORKING"@.len() == 7);
    assert("GARBAGE FRAMES"@.len() == 14);
    assert("NEGOTIATION FAILED"@.len() == 18);
    assert("NO FRAMES"@.len() == 9);
}

/// A bandwidth can be computed where the frames of a second are known and their bytes, counted in
/// hundredths and before they are divided, fit in 64 bits; that of a compressed format always can.
pub proof fn bandwidths_that_fit_are_computed(mode: VideoMode)
    ensures
        mode.format == PixelFormat::Yuyv || mode.format == PixelFormat::Uyvy ==> (bandwidth_defined(
            mode,
        ) <==> mode.fps_numerator > 0 && mode.width * mode.height * 200 * mode.fps_denominator
            <= u64::MAX),
        mode.format == PixelFormat::Nv12 || mode.format == PixelFormat::Yu12 ==> (bandwidth_defined(
            mode,
        ) <==> mode.fps_numerator > 0 && mode.width * mode.height * 150 * mode.fps_denominator
            <= u64::MAX),
        mode.format == PixelFormat::Mjpeg || mode.format == PixelFormat::H264 || mode.format is Unknown
            ==> bandwidth_defined(mode),
{
}

} // verus!
