use facecam::bytes::{write_i32, write_u32, ByteOrder};
use facecam::formats::PixelFormat;
use facecam::types::ControlType;
use facecam::v4l2::{
    actual_format_request, buffers_request, control_field, control_name_to_id, dequeue_buffer,
    dequeue_request, enumerate_all_modes, enumerate_controls, enumerate_formats,
    enumerate_frame_intervals, enumerate_frame_sizes, format_request, frame_interval_request,
    frame_size_request, get_actual_format, get_control, get_control_request, has_capture_time,
    lowercase_name_to_id, query_buffer, query_capabilities, queue_buffer, read_fixed_string,
    request_buffers, set_control, set_format, set_output_format, stream_off, stream_on,
    ControlEnumeration, ControlReply, ControlRequest, FormatModes, FrameInterval, FrameSize,
    SizeModes,
};

const LE: ByteOrder = ByteOrder::Little;

fn put_text(block: &mut [u8], at: usize, text: &str) {
    block[at..at + text.len()].copy_from_slice(text.as_bytes());
}

#[test]
fn fixed_strings_stop_at_the_first_nul() {
    assert_eq!(read_fixed_string(b"uvcvideo\0\0\0junk"), "uvcvideo");
    assert_eq!(read_fixed_string(b"full"), "full");
    assert_eq!(read_fixed_string(b"\0x"), "");
    assert_eq!(read_fixed_string(&[0x61, 0xff, 0x62]), "a\u{fffd}b");
}

#[test]
fn capabilities_prefer_those_of_the_node() {
    let mut block = [0u8; 104];
    put_text(&mut block, 0, "uvcvideo");
    put_text(&mut block, 16, "Elgato Facecam");
    put_text(&mut block, 48, "usb-0000:00:14.0-1");
    write_u32(LE, &mut block, 80, (6 << 16) | (17 << 8) | 3);
    write_u32(LE, &mut block, 84, 0x8420_0001);
    write_u32(LE, &mut block, 88, 0x0420_0000);
    let caps = query_capabilities(LE, &block);
    assert_eq!(caps.driver, "uvcvideo");
    assert_eq!(caps.card, "Elgato Facecam");
    assert_eq!(caps.bus_info, "usb-0000:00:14.0-1");
    assert_eq!(caps.version_string(), "6.17.3");
    assert_eq!(caps.capabilities, 0x0420_0000);
    assert!(!caps.has_capture && caps.has_streaming && !caps.has_output && !caps.has_readwrite);
    write_u32(LE, &mut block, 84, 0x0500_0003);
    let caps = query_capabilities(LE, &block);
    assert!(caps.has_capture && caps.has_output && caps.has_streaming && caps.has_readwrite);
}

#[test]
fn requests_carry_their_fields() {
    let f = format_request(LE, 3);
    assert_eq!(&f[..12], &[3, 0, 0, 0, 1, 0, 0, 0, 0, 0, 0, 0]);
    let s = frame_size_request(LE, 1, u32::from_le_bytes(*b"MJPG"));
    assert_eq!(&s[..8], &[1, 0, 0, 0, b'M', b'J', b'P', b'G']);
    let i = frame_interval_request(LE, 2, u32::from_le_bytes(*b"MJPG"), 1920, 1080);
    assert_eq!(&i[4..8], b"MJPG");
    assert_eq!(&i[8..16], &[0x80, 7, 0, 0, 0x38, 4, 0, 0]);
    let set = set_format(LE, 1280, 720, u32::from_le_bytes(*b"UYVY"));
    assert_eq!(&set[..20], &[1, 0, 0, 0, 0, 0, 0, 0, 0, 5, 0, 0, 0xd0, 2, 0, 0, b'U', b'Y', b'V', b'Y']);
    assert!(set[20..].iter().all(|&b| b == 0));
    assert_eq!(set_output_format(LE, 1280, 720, 0)[0], 2);
    assert_eq!(actual_format_request(LE)[..4], [1, 0, 0, 0]);
    assert_eq!(get_actual_format(LE, &set), (1280, 720, *b"UYVY"));
    assert_eq!(stream_on(ByteOrder::Big, 1), [0, 0, 0, 1]);
    assert_eq!(stream_off(LE, 1), [1, 0, 0, 0]);
    let b = buffers_request(LE, 4, 1);
    assert_eq!(&b[..12], &[4, 0, 0, 0, 1, 0, 0, 0, 1, 0, 0, 0]);
    assert_eq!(request_buffers(LE, &b), 4);
    let q = queue_buffer(LE, 2, 1);
    assert_eq!((q[0], q[4], q[60]), (2, 1, 1));
    assert_eq!(dequeue_request(LE, 1)[0], 0);
}

#[test]
fn formats_sizes_and_intervals_become_modes() {
    let mut mjpg = [0u8; 64];
    put_text(&mut mjpg, 12, "Motion-JPEG");
    put_text(&mut mjpg, 44, "MJPG");
    write_u32(LE, &mut mjpg, 8, 1);
    let mut nv12 = [0u8; 64];
    put_text(&mut nv12, 12, "Y/UV 4:2:0");
    put_text(&mut nv12, 44, "NV12");
    let formats = enumerate_formats(LE, &vec![mjpg, nv12]);
    assert_eq!(formats.len(), 2);
    assert_eq!(formats[0].index, 0);
    assert_eq!(formats[0].flags, 1);
    assert_eq!(formats[0].description, "Motion-JPEG");
    assert_eq!(formats[0].pixel_format, PixelFormat::Mjpeg);
    assert_eq!(formats[1].index, 1);
    assert_eq!(formats[1].fourcc_raw, u32::from_le_bytes(*b"NV12"));

    let mut size = [0u8; 44];
    write_u32(LE, &mut size, 8, 1);
    write_u32(LE, &mut size, 12, 1920);
    write_u32(LE, &mut size, 16, 1080);
    let mut stepwise = size;
    write_u32(LE, &mut stepwise, 8, 3);
    let sizes = enumerate_frame_sizes(LE, &vec![stepwise, size]);
    assert_eq!(sizes, vec![FrameSize { width: 1920, height: 1080 }]);

    let mut interval = [0u8; 52];
    write_u32(LE, &mut interval, 16, 1);
    write_u32(LE, &mut interval, 20, 1);
    write_u32(LE, &mut interval, 24, 60);
    let mut continuous = interval;
    write_u32(LE, &mut continuous, 16, 2);
    let intervals = enumerate_frame_intervals(LE, &vec![interval, continuous]);
    assert_eq!(intervals, vec![FrameInterval { numerator: 1, denominator: 60 }]);

    let modes = enumerate_all_modes(&vec![
        FormatModes {
            format: PixelFormat::Mjpeg,
            sizes: vec![SizeModes {
                size: sizes[0],
                intervals: vec![intervals[0], FrameInterval { numerator: 1, denominator: 30 }],
            }],
        },
        FormatModes { format: PixelFormat::Nv12, sizes: vec![] },
        FormatModes {
            format: PixelFormat::Uyvy,
            sizes: vec![SizeModes { size: sizes[0], intervals: vec![intervals[0]] }],
        },
    ]);
    let seen: Vec<_> = modes.iter().map(|m| (m.format, m.fps_denominator)).collect();
    assert_eq!(
        seen,
        vec![(PixelFormat::Mjpeg, 60), (PixelFormat::Mjpeg, 30), (PixelFormat::Uyvy, 60)]
    );
}

fn control(id: u32, kind: u32, name: &str, min: i32, max: i32, flags: u32) -> [u8; 68] {
    let mut block = [0u8; 68];
    write_u32(LE, &mut block, 0, id);
    write_u32(LE, &mut block, 4, kind);
    put_text(&mut block, 8, name);
    write_i32(LE, &mut block, 40, min);
    write_i32(LE, &mut block, 44, max);
    write_i32(LE, &mut block, 48, 1);
    write_i32(LE, &mut block, 52, min);
    write_u32(LE, &mut block, 56, flags);
    block
}

fn menu(name: &str) -> ControlReply {
    let mut block = [0u8; 68];
    put_text(&mut block, 8, name);
    ControlReply::Described(block)
}

#[test]
fn controls_are_enumerated_in_a_dialogue() {
    let replies = vec![
        ControlReply::Described(control(0x0098_0001, 6, "User Controls", 0, 0, 0)),
        ControlReply::Described(control(0x0098_0900, 1, "Brightness", -10, 255, 0)),
        ControlReply::Read(set_control(LE, 0x0098_0900, -3)),
        ControlReply::Described(control(0x0098_0901, 1, "Contrast", 0, 10, 1)),
        ControlReply::Described(control(0x0098_0918, 3, "Power Line", 0, 2, 0)),
        ControlReply::Refused,
        menu("Disabled"),
        ControlReply::Refused,
        menu("60 Hz"),
        ControlReply::Refused,
    ];
    let mut dialogue = ControlEnumeration::new(LE);
    for (i, reply) in replies.iter().enumerate() {
        match dialogue.request() {
            ControlRequest::Control(block) => {
                let last = dialogue.last_id | 0x8000_0000;
                assert_eq!(block[..4], last.to_le_bytes());
                assert!([0, 1, 3, 4, 9].contains(&i));
            }
            ControlRequest::Value(block) => {
                assert_eq!(block[..4], dialogue.last_id.to_le_bytes());
                assert!([2, 5].contains(&i));
            }
            ControlRequest::Item(block) => {
                assert_eq!(block[..4], 0x0098_0918u32.to_le_bytes());
                assert_eq!(block[4..8], (i as u32 - 6).to_le_bytes());
            }
            ControlRequest::Finished => panic!("too early"),
        }
        dialogue = dialogue.reply(*reply);
    }
    assert!(matches!(dialogue.request(), ControlRequest::Finished));
    let listed = enumerate_controls(LE, &replies);
    assert_eq!(listed.len(), 2);
    assert_eq!(dialogue.controls.len(), 2);
    assert_eq!(listed[0].name, "Brightness");
    assert_eq!(listed[0].value, -3);
    assert_eq!((listed[0].minimum, listed[0].maximum), (-10, 255));
    assert_eq!(listed[0].control_type, ControlType::Integer);
    assert!(listed[0].menu_items.is_empty());
    assert_eq!(listed[1].value, 0);
    let items: Vec<_> = listed[1].menu_items.iter().map(|m| (m.index, m.name.as_str())).collect();
    assert_eq!(items, vec![(0, "Disabled"), (2, "60 Hz")]);
}

#[test]
fn a_menu_with_an_empty_range_has_no_items() {
    let replies = vec![
        ControlReply::Described(control(7, 9, "Menu", 3, 2, 0)),
        ControlReply::Read(set_control(LE, 7, 1)),
        ControlReply::Refused,
    ];
    let listed = enumerate_controls(LE, &replies);
    assert_eq!(listed.len(), 1);
    assert_eq!(listed[0].control_type, ControlType::IntegerMenu);
    assert!(listed[0].menu_items.is_empty());
}

#[test]
fn control_values_round_trip() {
    assert_eq!(get_control(LE, &set_control(LE, 1, -5)), -5);
    assert_eq!(get_control(LE, &get_control_request(LE, 1)), 0);
    for v in [0i64, -1, i32::MAX as i64, i32::MIN as i64, i32::MAX as i64 + 1, i64::MIN, i64::MAX, -4294967297] {
        assert_eq!(control_field(v), v as i32);
    }
}

#[test]
fn dequeued_buffers_give_index_size_and_time() {
    let mut block = [0u8; 88];
    write_u32(LE, &mut block, 0, 3);
    write_u32(LE, &mut block, 8, 4096);
    write_u32(LE, &mut block, 24, 12);
    write_u32(LE, &mut block, 56, 77);
    write_u32(LE, &mut block, 64, 0x1000);
    write_u32(LE, &mut block, 72, 8192);
    assert!(has_capture_time(LE, &block));
    assert_eq!(dequeue_buffer(LE, &block), (3, 4096, 77, 12_000));
    write_u32(LE, &mut block, 32, 250_999);
    assert_eq!(dequeue_buffer(LE, &block), (3, 4096, 77, 12_250));
    write_u32(LE, &mut block, 32, 0xffff_ffff);
    write_u32(LE, &mut block, 36, 0xffff_ffff);
    assert_eq!(dequeue_buffer(LE, &block), (3, 4096, 77, 11_999));
    assert_eq!(query_buffer(LE, &block), (8192, 0x1000));
    write_u32(LE, &mut block, 28, 0x8000_0000);
    assert!(!has_capture_time(LE, &block));
}

#[test]
fn control_names_ignore_case_and_know_aliases() {
    assert_eq!(control_name_to_id("Brightness"), Some(0x0098_0900));
    assert_eq!(control_name_to_id("ZOOM"), control_name_to_id("zoom_absolute"));
    assert_eq!(control_name_to_id("Auto_Exposure"), Some(0x009A_0901));
    assert_eq!(control_name_to_id("sharpness"), Some(0x0098_091B));
    assert_eq!(control_name_to_id("gain"), Some(0x0098_0913));
    assert_eq!(control_name_to_id("anti_flicker"), Some(0x0098_0918));
    assert_eq!(control_name_to_id("white_balance_temperature"), Some(0x0098_091A));
    assert_eq!(control_name_to_id("pan"), Some(0x009A_0908));
    assert_eq!(control_name_to_id("tilt"), Some(0x009A_0909));
    assert_eq!(control_name_to_id("exposure_time_absolute"), Some(0x009A_0902));
    assert_eq!(control_name_to_id("White_Balance_Automatic"), Some(0x0098_090C));
    assert_eq!(control_name_to_id("white_balance_auto"), Some(0x0098_090C));
    assert_eq!(control_name_to_id("white_balance"), None);
    assert_eq!(control_name_to_id(""), None);
    assert_eq!(lowercase_name_to_id("Brightness"), None);
    assert_eq!(lowercase_name_to_id("contrast"), Some(0x0098_0901));
}
