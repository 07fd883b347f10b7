use facecam::formats::{FormatVerdict, PixelFormat, VideoMode};

#[test]
fn h264_round_trip_via_fourcc() {
    let h264 = PixelFormat::from_fourcc(u32::from_le_bytes(*b"H264"));
    assert_eq!(h264, PixelFormat::H264);
    assert_eq!(h264.to_fourcc(), u32::from_le_bytes(*b"H264"));
    assert_eq!(h264.fourcc_str(), "H264");
}

#[test]
fn h264_has_no_static_bytes_per_pixel() {
    // Compressed format: bandwidth depends on content, not a fixed bpp.
    assert!(PixelFormat::H264.bytes_per_pixel().is_none());
}

#[test]
fn h264_displays_as_fourcc() {
    assert_eq!(PixelFormat::H264.to_text(), "H264");
}

#[test]
fn fourcc_codes_round_trip() {
    for code in [*b"YUYV", *b"UYVY", *b"NV12", *b"YU12", *b"MJPG", *b"H264", *b"ABCD"] {
        let format = PixelFormat::from_fourcc(u32::from_le_bytes(code));
        assert_eq!(format.to_fourcc(), u32::from_le_bytes(code));
        assert_eq!(format.fourcc_str(), String::from_utf8_lossy(&code));
    }
    let broken = PixelFormat::from_fourcc(u32::from_le_bytes([0xff, b'a', 0xfe, b'b']));
    assert_eq!(broken.fourcc_str(), "\u{fffd}a\u{fffd}b");
}

#[test]
fn bandwidth_counts_bytes_per_second() {
    let mode = VideoMode {
        format: PixelFormat::Uyvy,
        width: 1920,
        height: 1080,
        fps_numerator: 1,
        fps_denominator: 60,
    };
    assert!(mode.has_bandwidth());
    assert_eq!(mode.bandwidth_bytes_per_sec(), Some(1920 * 1080 * 2 * 60));
    let planar = VideoMode { format: PixelFormat::Nv12, ..mode };
    assert_eq!(planar.bandwidth_bytes_per_sec(), Some(1920 * 1080 * 3 / 2 * 60));
    let compressed = VideoMode { format: PixelFormat::Mjpeg, ..mode };
    assert_eq!(compressed.bandwidth_bytes_per_sec(), Some(1920 * 1080 / 5 * 60));
    let stream = VideoMode { format: PixelFormat::H264, ..mode };
    assert_eq!(stream.bandwidth_bytes_per_sec(), Some(1920 * 1080 / 25 * 60));
    let vast = VideoMode { width: u32::MAX, height: u32::MAX, ..compressed };
    assert!(vast.has_bandwidth());
    assert_eq!(vast.bandwidth_bytes_per_sec(), Some(u64::MAX));
    let still = VideoMode { fps_numerator: 0, ..compressed };
    assert_eq!(still.bandwidth_bytes_per_sec(), None);
    let other = VideoMode { format: PixelFormat::Unknown(7), ..mode };
    assert_eq!(other.bandwidth_bytes_per_sec(), None);
    assert!(!VideoMode { fps_numerator: 0, ..mode }.has_bandwidth());
    let huge = VideoMode { width: u32::MAX, height: u32::MAX, ..mode };
    assert!(!huge.has_bandwidth());
}

#[test]
fn frame_rates_are_compared_like_quotients() {
    let pairs = [(1u32, 30u32), (1, 60), (2, 59), (1001, 30000), (0, 30), (1, 0), (7, 200)];
    for (numerator, denominator) in pairs {
        let mode = VideoMode {
            format: PixelFormat::Mjpeg,
            width: 1,
            height: 1,
            fps_numerator: numerator,
            fps_denominator: denominator,
        };
        let fps = if numerator == 0 {
            0.0
        } else {
            denominator as f64 / numerator as f64
        };
        for wanted in 0..70u32 {
            assert_eq!(mode.delivers(wanted), fps >= wanted as f64 - 1.0);
        }
    }
}

#[test]
fn verdicts_are_printed() {
    assert_eq!(FormatVerdict::Working.to_text(), "WORKING");
    assert_eq!(FormatVerdict::GarbageFrames.to_text(), "GARBAGE FRAMES");
    assert_eq!(FormatVerdict::NegotiationFailed.to_text(), "NEGOTIATION FAILED");
    assert_eq!(FormatVerdict::NoFrames.to_text(), "NO FRAMES");
    assert_eq!(FormatVerdict::Unstable.to_text(), "UNSTABLE");
    assert_eq!(FormatVerdict::Untested.to_text(), "UNTESTED");
}
