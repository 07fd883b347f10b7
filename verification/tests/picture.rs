use facecam::jpeg::has_overflow;
use facecam::picture::{
    decode_mjpeg, decode_uyvy, draw_image, snapshot, yuv_to_rgb, JpegImage, JpegPixels,
    TOO_LARGE,
};

/// A baseline JPEG of 8 by 8 pixels with one colour, from the bytes of its scan.
fn flat_jpeg(components: u8, scan: &[u8]) -> Vec<u8> {
    let mut out = vec![0xff, 0xd8, 0xff, 0xdb, 0, 67, 0, 8];
    out.extend([1u8; 63]);
    out.extend([0xff, 0xc0, 0, 8 + 3 * components, 8, 0, 8, 0, 8, components]);
    for i in 1..=components {
        out.extend([i, 0x11, 0]);
    }
    out.extend([0xff, 0xc4, 0, 31, 0, 0, 0, 0, 12]);
    out.extend([0u8; 12]);
    out.extend(0..12u8);
    out.extend([0xff, 0xc4, 0, 20, 0x10, 1]);
    out.extend([0u8; 15]);
    out.push(0);
    out.extend([0xff, 0xda, 0, 6 + 2 * components, components]);
    for i in 1..=components {
        out.extend([i, 0]);
    }
    out.extend([0, 63, 0]);
    out.extend(scan);
    out.extend([0xff, 0xd9]);
    out
}

#[test]
fn colours_match_floating_point_for_every_pixel() {
    for u in 0..=255u8 {
        for v in 0..=255u8 {
            for y in 0..=255u8 {
                let (yf, uf, vf) = (y as f64, u as f64 - 128.0, v as f64 - 128.0);
                let r = (yf + 1.402 * vf).clamp(0.0, 255.0) as u8;
                let g = (yf - 0.344136 * uf - 0.714136 * vf).clamp(0.0, 255.0) as u8;
                let b = (yf + 1.772 * uf).clamp(0.0, 255.0) as u8;
                assert_eq!(yuv_to_rgb(y, u, v), (r, g, b), "y={} u={} v={}", y, u, v);
            }
        }
    }
}

#[test]
fn grey_pixels_keep_their_luma() {
    for y in 0..=255u8 {
        assert_eq!(yuv_to_rgb(y, 128, 128), (y, y, y));
    }
    assert_eq!(yuv_to_rgb(255, 28, 228), (255, 217, 77));
}

#[test]
fn uyvy_groups_become_two_pixels_each() {
    let data = [128, 10, 128, 20, 128, 30, 128, 40, 128, 50, 128, 60, 128, 70, 128, 80];
    let mut buf = [7u32; 12];
    decode_uyvy(&data, &mut buf, 4, 2, 6);
    let grey = |n: u32| n << 16 | n << 8 | n;
    assert_eq!(
        buf,
        [
            grey(10), grey(20), grey(30), grey(40), 7, 7,
            grey(50), grey(60), grey(70), grey(80), 7, 7
        ]
    );
}

#[test]
fn short_frames_leave_the_rest_untouched() {
    let mut buf = [7u32; 4];
    decode_uyvy(&[128, 1, 128, 2, 128], &mut buf, 2, 2, 2);
    assert_eq!(buf, [0x010101, 0x020202, 7, 7]);
    let mut small = [7u32; 1];
    decode_uyvy(&[128, 1, 128, 2], &mut small, 2, 1, 2);
    assert_eq!(small, [0x010101]);
    let mut none = [7u32; 2];
    decode_uyvy(&[128, 1, 128, 2], &mut none, 0, 5, 0);
    assert_eq!(none, [7, 7]);
}

#[test]
fn a_pair_that_crosses_an_odd_row_loses_its_second_pixel() {
    let data = [128, 1, 128, 2, 128, 3, 128, 4, 128, 5, 128, 6];
    let mut buf = [9u32; 6];
    decode_uyvy(&data, &mut buf, 3, 2, 3);
    assert_eq!(buf, [0x010101, 0x020202, 0x030303, 9, 0x050505, 0x060606]);
}

#[test]
fn jpeg_frames_are_decoded_and_cut_to_the_picture() {
    let mut buf = [1u32; 20];
    let frame = flat_jpeg(1, &[0x79, 0x0f]);
    assert!(decode_mjpeg(&frame, &mut buf, 3, 2, 10).is_ok());
    for k in 0..20 {
        let inside = k / 10 < 2 && k % 10 < 3;
        assert_eq!(buf[k], if inside { 0xc8c8c8 } else { 1 });
    }
    let mut colour = [1u32; 64];
    let frame = flat_jpeg(3, &[0x79, 0x07, 0x36, 0x07]);
    assert!(decode_mjpeg(&frame, &mut colour, 8, 8, 8).is_ok());
    assert!(colour.iter().all(|&p| p == 0xc81c80));
}

#[test]
fn frames_that_cannot_be_decoded_leave_the_picture() {
    let mut buf = [5u32; 4];
    let error = decode_mjpeg(&[1, 2, 3], &mut buf, 2, 2, 2).unwrap_err();
    assert_eq!(error.words, "Format(\"first two bytes are not an SOI marker\")");
    assert_eq!(buf, [5; 4]);
}

#[test]
fn stored_pixels_are_read_by_their_format() {
    let image = |format, pixels: Vec<u8>| JpegImage { pixels, width: 2, height: 1, format };
    let mut buf = [9u32; 2];
    draw_image(&image(JpegPixels::Rgb24, vec![1, 2, 3, 4, 5]), &mut buf, 2, 1, 2);
    assert_eq!(buf, [0x010203, 9]);
    draw_image(&image(JpegPixels::L8, vec![8, 7]), &mut buf, 2, 1, 2);
    assert_eq!(buf, [0x080808, 0x070707]);
    draw_image(&image(JpegPixels::L16, vec![1, 99, 2, 99]), &mut buf, 2, 1, 2);
    assert_eq!(buf, [0x010101, 0x020202]);
    draw_image(&image(JpegPixels::Cmyk32, vec![3, 9, 9, 9, 4, 9, 9, 9]), &mut buf, 2, 1, 2);
    assert_eq!(buf, [0x030303, 0x040404]);
    draw_image(&image(JpegPixels::L8, vec![6]), &mut buf, 2, 1, 2);
    assert_eq!(buf, [0x060606, 0x040404]);
}

#[test]
fn snapshots_are_ppm_files() {
    let file = snapshot(&[0x010203, 0xff0a0b0c], 2, 1);
    let mut expected = b"P6\n2 1\n255\n".to_vec();
    expected.extend([1, 2, 3, 0x0a, 0x0b, 0x0c]);
    assert_eq!(file, expected);
}

/// A flat JPEG with another size and other sampling factors of its first component in its header.
fn resized_jpeg(components: u8, lines: u16, columns: u16, factors: u8) -> Vec<u8> {
    let mut frame = match components {
        1 => flat_jpeg(1, &[0x79, 0x0f]),
        _ => flat_jpeg(3, &[0x79, 0x07, 0x36, 0x07]),
    };
    let header = frame.windows(2).position(|w| w == [0xff, 0xc0]).unwrap();
    frame[header + 5..header + 7].copy_from_slice(&lines.to_be_bytes());
    frame[header + 7..header + 9].copy_from_slice(&columns.to_be_bytes());
    frame[header + 11] = factors;
    frame
}

#[test]
fn scans_that_cannot_be_counted_are_refused() {
    let cases = [
        (65529, 8, 0x11, true),
        (65535, 8, 0x12, true),
        (65528, 8, 0x11, false),
        (8, 65535, 0x11, false),
        (8, 65535, 0x21, false),
        (8, 65535, 0x41, false),
        (8, 65529, 0x31, true),
        (8, 65528, 0x31, false),
        (8, 65528, 0x33, false),
    ];
    for (lines, columns, factors, refused) in cases {
        let frame = resized_jpeg(1, lines, columns, factors);
        assert_eq!(has_overflow(&frame), refused, "{} {} {:x}", lines, columns, factors);
        let mut buf = [5u32; 4];
        match decode_mjpeg(&frame, &mut buf, 2, 2, 2) {
            Err(error) => {
                assert_eq!(error.words == TOO_LARGE, refused);
                assert_eq!(buf, [5; 4]);
            }
            Ok(()) => assert!(!refused),
        }
    }
}

#[test]
fn interleaved_scans_and_embedded_headers_are_decoded() {
    let tall = resized_jpeg(3, 65535, 8, 0x11);
    assert!(!has_overflow(&tall));
    let mut buf = [5u32; 4];
    if let Err(error) = decode_mjpeg(&tall, &mut buf, 2, 2, 2) {
        assert_ne!(error.words, TOO_LARGE);
    }
    let inner = resized_jpeg(1, 65535, 8, 0x11);
    let plain = flat_jpeg(1, &[0x79, 0x0f]);
    let mut outer = vec![0xff, 0xd8, 0xff, 0xe5];
    outer.extend((inner.len() as u16 + 2).to_be_bytes());
    outer.extend(&inner);
    outer.extend(&plain[2..]);
    assert!(!has_overflow(&outer));
    assert!(decode_mjpeg(&outer, &mut buf, 2, 2, 2).is_ok());
    assert_eq!(buf, [0xc8c8c8; 4]);
}

#[test]
fn a_scan_of_one_subsampled_component_is_counted() {
    let mut frame = resized_jpeg(3, 65535, 8, 0x12);
    assert!(!has_overflow(&frame));
    let scan = frame.windows(2).position(|w| w == [0xff, 0xda]).unwrap();
    frame.truncate(scan);
    for (id, refused) in [(1u8, true), (2, false), (9, false)] {
        let mut one = frame.clone();
        one.extend([0xff, 0xda, 0, 8, 1, id, 0, 0, 63, 0, 0xff, 0xd9]);
        assert_eq!(has_overflow(&one), refused);
    }
    assert!(!has_overflow(&[]) && !has_overflow(&[0xff]) && !has_overflow(&[0xff, 0xd8, 0xff, 0xc0]));
}

#[test]
fn pictures_may_be_larger_than_memory() {
    let mut buf = [9u32; 2];
    decode_uyvy(&[128, 1, 128, 2], &mut buf, usize::MAX, usize::MAX, usize::MAX);
    assert_eq!(buf, [0x010101, 0x020202]);
    let image = JpegImage { pixels: vec![3, 4], width: 1, height: 2, format: JpegPixels::L8 };
    draw_image(&image, &mut buf, usize::MAX, usize::MAX, usize::MAX);
    assert_eq!(buf, [0x030303, 0x020202]);
}
