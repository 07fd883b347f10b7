//! The argument blocks of the V4L2 `ioctl` calls.
//!
//! Each call of the kernel takes a block of bytes whose layout is part of the stable kernel ABI.
//! For every call this module builds the block that is handed in and reads the block that comes
//! back. The calls themselves are made by the caller.

use crate::bytes::{self, read_i32, read_i64, read_u32, write_i32, write_u32, ByteOrder};
use crate::formats::{self, PixelFormat, VideoMode};
use crate::text::{self, decimal_text, from_utf8_lossy, push_decimal, text_eq, to_lower};
use crate::types::{self, ControlType, ControlValue, MenuItem};
use vstd::prelude::*;
use vstd::slice::*;
use vstd::string::*;
use vstd::utf8::*;

verus! {

pub const VIDIOC_QUERYCAP: u64 = 0x80685600;

pub const VIDIOC_ENUM_FMT: u64 = 0xC0405602;

pub const VIDIOC_G_FMT: u64 = 0xC0D05604;

pub const VIDIOC_S_FMT: u64 = 0xC0D05605;

pub const VIDIOC_REQBUFS: u64 = 0xC0145608;

pub const VIDIOC_QUERYBUF: u64 = 0xC0585609;

pub const VIDIOC_QBUF: u64 = 0xC058560F;

pub const VIDIOC_DQBUF: u64 = 0xC0585611;

pub const VIDIOC_STREAMON: u64 = 0x40045612;

pub const VIDIOC_STREAMOFF: u64 = 0x40045613;

pub const VIDIOC_G_CTRL: u64 = 0xC008561B;

pub const VIDIOC_S_CTRL: u64 = 0xC008561C;

pub const VIDIOC_QUERYCTRL: u64 = 0xC0445624;

pub const VIDIOC_QUERYMENU: u64 = 0xC0445625;

pub const VIDIOC_ENUM_FRAMESIZES: u64 = 0xC02C564A;

pub const VIDIOC_ENUM_FRAMEINTERVALS: u64 = 0xC034564B;

pub const V4L2_BUF_TYPE_VIDEO_CAPTURE: u32 = 1;

pub const V4L2_BUF_TYPE_VIDEO_OUTPUT: u32 = 2;

pub const V4L2_MEMORY_MMAP: u32 = 1;

pub const V4L2_CAP_VIDEO_CAPTURE: u32 = 0x00000001;

pub const V4L2_CAP_VIDEO_OUTPUT: u32 = 0x00000002;

pub const V4L2_CAP_READWRITE: u32 = 0x01000000;

pub const V4L2_CAP_STREAMING: u32 = 0x04000000;

pub const V4L2_CAP_DEVICE_CAPS: u32 = 0x80000000;

pub const V4L2_CTRL_FLAG_DISABLED: u32 = 0x0001;

pub const V4L2_CTRL_FLAG_NEXT_CTRL: u32 = 0x80000000;

pub const V4L2_FRMSIZE_TYPE_DISCRETE: u32 = 1;

pub const V4L2_FRMIVAL_TYPE_DISCRETE: u32 = 1;

pub const V4L2_CID_BASE: u32 = 0x00980900;

pub const V4L2_CID_CAMERA_CLASS_BASE: u32 = 0x009A0900;

// ---------------------------------------------------------------------------------------------
// Texts in fixed-size fields
// ---------------------------------------------------------------------------------------------

/// The bytes before the first zero byte, or all of them.
pub open spec fn until_nul(buf: Seq<u8>) -> Seq<u8>
    decreases buf.len(),
{
    if buf.len() == 0 || buf[0] == 0 {
        Seq::empty()
    } else {
        seq![buf[0]] + until_nul(buf.skip(1))
    }
}

proof fn lemma_until_nul(buf: Seq<u8>, end: int)
    requires
        0 <= end <= buf.len(),
        forall|i: int| 0 <= i < end ==> buf[i] != 0,
        end < buf.len() ==> buf[end] == 0,
    ensures
        until_nul(buf) == buf.take(end),
    decreases end,
{
    if end > 0 {
        let rest = buf.skip(1);
        assert forall|i: int| 0 <= i < end - 1 implies rest[i] != 0 by {
            assert(rest[i] == buf[i + 1]);
        }
        lemma_until_nul(rest, end - 1);
        assert(seq![buf[0]] + rest.take(end - 1) =~= buf.take(end));
    } else {
        assert(buf.take(0) =~= Seq::empty());
    }
}

/// The text in a fixed-size field: what stands before the first zero byte, read as UTF-8 as far
/// as it is valid.
pub fn read_fixed_string(buf: &[u8]) -> (r: String)
    ensures
        r@ == text::lossy_text(until_nul(buf@)),
{
    let mut end: usize = 0;
    while end < buf.len() && buf[end] != 0
        invariant
            end <= buf@.len(),
            forall|i: int| 0 <= i < end ==> buf@[i] != 0,
        ensures
            end <= buf@.len(),
            forall|i: int| 0 <= i < end ==> buf@[i] != 0,
            end < buf@.len() ==> buf@[end as int] == 0,
        decreases buf@.len() - end,
    {
        end += 1;
    }
    proof {
        lemma_until_nul(buf@, end as int);
        assert(buf@.subrange(0, end as int) =~= buf@.take(end as int));
    }
    from_utf8_lossy(slice_subrange(buf, 0, end))
}

/// The text in the field that occupies the bytes from `from` up to `to`.
pub open spec fn text_at(block: Seq<u8>, from: int, to: int) -> Seq<char> {
    text::lossy_text(until_nul(block.subrange(from, to)))
}

// ---------------------------------------------------------------------------------------------
// Capabilities
// ---------------------------------------------------------------------------------------------

#[derive(Debug, Clone)]
pub struct DeviceCapabilities {
    pub driver: String,
    pub card: String,
    pub bus_info: String,
    pub version: u32,
    pub capabilities: u32,
    pub has_capture: bool,
    pub has_output: bool,
    pub has_streaming: bool,
    pub has_readwrite: bool,
}

/// The capabilities that count: those of the device node where the driver reports them, those of
/// the whole device otherwise.
pub open spec fn effective_capabilities(order: ByteOrder, block: Seq<u8>) -> u32 {
    let capabilities = bytes::u32_at(order, block, 84);
    if capabilities & V4L2_CAP_DEVICE_CAPS != 0 {
        bytes::u32_at(order, block, 88)
    } else {
        capabilities
    }
}

/// Reads the block that `VIDIOC_QUERYCAP` filled.
pub fn query_capabilities(order: ByteOrder, block: &[u8; 104]) -> (r: DeviceCapabilities)
    ensures
        r.driver@ == text_at(block@, 0, 16),
        r.card@ == text_at(block@, 16, 48),
        r.bus_info@ == text_at(block@, 48, 80),
        r.version == bytes::u32_at(order, block@, 80),
        r.capabilities == effective_capabilities(order, block@),
        r.has_capture == (r.capabilities & V4L2_CAP_VIDEO_CAPTURE != 0),
        r.has_output == (r.capabilities & V4L2_CAP_VIDEO_OUTPUT != 0),
        r.has_streaming == (r.capabilities & V4L2_CAP_STREAMING != 0),
        r.has_readwrite == (r.capabilities & V4L2_CAP_READWRITE != 0),
{
    let cap = block.as_slice();
    let capabilities: u32 = read_u32(order, cap, 84);
    let effective: u32 = if capabilities & V4L2_CAP_DEVICE_CAPS != 0 {
        read_u32(order, cap, 88)
    } else {
        capabilities
    };
    DeviceCapabilities {
        driver: read_fixed_string(slice_subrange(cap, 0, 16)),
        card: read_fixed_string(slice_subrange(cap, 16, 48)),
        bus_info: read_fixed_string(slice_subrange(cap, 48, 80)),
        version: read_u32(order, cap, 80),
        capabilities: effective,
        has_capture: effective & V4L2_CAP_VIDEO_CAPTURE != 0,
        has_output: effective & V4L2_CAP_VIDEO_OUTPUT != 0,
        has_streaming: effective & V4L2_CAP_STREAMING != 0,
        has_readwrite: effective & V4L2_CAP_READWRITE != 0,
    }
}

/// A kernel version number as text: its three low bytes, most significant first.
pub open spec fn version_text(version: u32) -> Seq<char> {
    text::decimal((version / 0x1_0000 % 0x100) as nat) + "."@ + text::decimal(
        (version / 0x100 % 0x100) as nat,
    ) + "."@ + text::decimal((version % 0x100) as nat)
}

impl DeviceCapabilities {
    /// The driver version, such as `6.17.3`.
    pub fn version_string(&self) -> (r: String)
        ensures
            r@ == version_text(self.version),
    {
        let v: u32 = self.version;
        let mut out = decimal_text((v / 0x1_0000 % 0x100) as u64);
        out.append(".");
        push_decimal(&mut out, (v / 0x100 % 0x100) as u64);
        out.append(".");
        push_decimal(&mut out, (v % 0x100) as u64);
        out
    }
}

// ---------------------------------------------------------------------------------------------
// Formats, frame sizes and frame intervals
// ---------------------------------------------------------------------------------------------

#[derive(Debug, Clone)]
pub struct FormatDescription {
    pub index: u32,
    pub flags: u32,
    pub description: String,
    pub pixel_format: PixelFormat,
    pub fourcc_raw: u32,
}

/// The block that asks `VIDIOC_ENUM_FMT` for one capture format.
pub open spec fn format_query(order: ByteOrder, index: u32) -> Seq<u8> {
    bytes::patched(
        bytes::patched(bytes::zeros(64), 0, bytes::u32_bytes(order, index)),
        4,
        bytes::u32_bytes(order, V4L2_BUF_TYPE_VIDEO_CAPTURE),
    )
}

/// The block that asks `VIDIOC_ENUM_FMT` for the capture format with the given index.
pub fn format_request(order: ByteOrder, index: u32) -> (r: [u8; 64])
    ensures
        r@ == format_query(order, index),
{
    let mut block = [0u8; 64];
    proof {
        assert(block@ =~= bytes::zeros(64));
    }
    write_u32(order, &mut block, 0, index);
    write_u32(order, &mut block, 4, V4L2_BUF_TYPE_VIDEO_CAPTURE);
    block
}

/// Whether a description says what the block of `VIDIOC_ENUM_FMT` says of the format with the
/// given index.
pub open spec fn describes(d: FormatDescription, order: ByteOrder, index: int, block: Seq<u8>) -> bool {
    &&& d.index == index
    &&& d.flags == bytes::u32_at(order, block, 8)
    &&& d.description@ == text_at(block, 12, 44)
    &&& d.fourcc_raw == bytes::u32_at(order, block, 44)
    &&& d.pixel_format == formats::format_of(d.fourcc_raw)
}

/// The formats of a device. `blocks` are what `VIDIOC_ENUM_FMT` returned for the indices 0, 1 and
/// so on, up to the first index that it refused.
pub fn enumerate_formats(order: ByteOrder, blocks: &Vec<[u8; 64]>) -> (r: Vec<FormatDescription>)
    requires
        blocks@.len() <= u32::MAX,
    ensures
        r@.len() == blocks@.len(),
        forall|i: int| 0 <= i < r@.len() ==> describes(#[trigger] r@[i], order, i, blocks@[i]@),
{
    let mut formats: Vec<FormatDescription> = Vec::new();
    for i in 0..blocks.len()
        invariant
            blocks@.len() <= u32::MAX,
            formats@.len() == i,
            forall|j: int|
                0 <= j < i ==> describes(#[trigger] formats@[j], order, j, blocks@[j]@),
    {
        let block = blocks[i].as_slice();
        let code: u32 = read_u32(order, block, 44);
        formats.push(
            FormatDescription {
                index: i as u32,
                flags: read_u32(order, block, 8),
                description: read_fixed_string(slice_subrange(block, 12, 44)),
                pixel_format: PixelFormat::from_fourcc(code),
                fourcc_raw: code,
            },
        );
    }
    formats
}

#[derive(Debug, Clone, Copy, PartialEq, Eq, Structural)]
pub struct FrameSize {
    pub width: u32,
    pub height: u32,
}

/// The block that asks `VIDIOC_ENUM_FRAMESIZES` for one frame size of a format.
pub open spec fn frame_size_query(order: ByteOrder, index: u32, fourcc: u32) -> Seq<u8> {
    bytes::patched(
        bytes::patched(bytes::zeros(44), 0, bytes::u32_bytes(order, index)),
        4,
        bytes::u32_bytes(order, fourcc),
    )
}

/// The block that asks `VIDIOC_ENUM_FRAMESIZES` for the frame size with the given index.
pub fn frame_size_request(order: ByteOrder, index: u32, fourcc: u32) -> (r: [u8; 44])
    ensures
        r@ == frame_size_query(order, index, fourcc),
{
    let mut block = [0u8; 44];
    proof {
        assert(block@ =~= bytes::zeros(44));
    }
    write_u32(order, &mut block, 0, index);
    write_u32(order, &mut block, 4, fourcc);
    block
}

/// The frame sizes that a list of blocks holds, in order. Only discrete sizes count.
pub open spec fn frame_sizes_in(order: ByteOrder, blocks: Seq<[u8; 44]>) -> Seq<FrameSize>
    decreases blocks.len(),
{
    if blocks.len() == 0 {
        Seq::empty()
    } else {
        let before = frame_sizes_in(order, blocks.drop_last());
        let block = blocks.last()@;
        if bytes::u32_at(order, block, 8) == V4L2_FRMSIZE_TYPE_DISCRETE {
            before.push(
                FrameSize {
                    width: bytes::u32_at(order, block, 12),
                    height: bytes::u32_at(order, block, 16),
                },
            )
        } else {
            before
        }
    }
}

/// The discrete frame sizes of a format. `blocks` are what `VIDIOC_ENUM_FRAMESIZES` returned for
/// the indices 0, 1 and so on, up to the first index that it refused.
pub fn enumerate_frame_sizes(order: ByteOrder, blocks: &Vec<[u8; 44]>) -> (r: Vec<FrameSize>)
    ensures
        r@ == frame_sizes_in(order, blocks@),
{
    let mut sizes: Vec<FrameSize> = Vec::new();
    for i in 0..blocks.len()
        invariant
            sizes@ == frame_sizes_in(order, blocks@.take(i as int)),
    {
        let block = blocks[i].as_slice();
        if read_u32(order, block, 8) == V4L2_FRMSIZE_TYPE_DISCRETE {
            sizes.push(
                FrameSize { width: read_u32(order, block, 12), height: read_u32(order, block, 16) },
            );
        }
        proof {
            assert(blocks@.take(i + 1).drop_last() =~= blocks@.take(i as int));
        }
    }
    proof {
        assert(blocks@.take(blocks@.len() as int) =~= blocks@);
    }
    sizes
}

#[derive(Debug, Clone, Copy, PartialEq, Eq, Structural)]
pub struct FrameInterval {
    pub numerator: u32,
    pub denominator: u32,
}

/// The block that asks `VIDIOC_ENUM_FRAMEINTERVALS` for one frame interval.
pub open spec fn frame_interval_query(
    order: ByteOrder,
    index: u32,
    fourcc: u32,
    width: u32,
    height: u32,
) -> Seq<u8> {
    bytes::patched(
        bytes::patched(
            bytes::patched(
                bytes::patched(bytes::zeros(52), 0, bytes::u32_bytes(order, index)),
                4,
                bytes::u32_bytes(order, fourcc),
            ),
            8,
            bytes::u32_bytes(order, width),
        ),
        12,
        bytes::u32_bytes(order, height),
    )
}

/// The block that asks `VIDIOC_ENUM_FRAMEINTERVALS` for the interval with the given index.
pub fn frame_interval_request(
    order: ByteOrder,
    index: u32,
    fourcc: u32,
    width: u32,
    height: u32,
) -> (r: [u8; 52])
    ensures
        r@ == frame_interval_query(order, index, fourcc, width, height),
{
    let mut block = [0u8; 52];
    proof {
        assert(block@ =~= bytes::zeros(52));
    }
    write_u32(order, &mut block, 0, index);
    write_u32(order, &mut block, 4, fourcc);
    write_u32(order, &mut block, 8, width);
    write_u32(order, &mut block, 12, height);
    block
}

/// The frame intervals that a list of blocks holds, in order. Only discrete ones count.
pub open spec fn frame_intervals_in(order: ByteOrder, blocks: Seq<[u8; 52]>) -> Seq<FrameInterval>
    decreases blocks.len(),
{
    if blocks.len() == 0 {
        Seq::empty()
    } else {
        let before = frame_intervals_in(order, blocks.drop_last());
        let block = blocks.last()@;
        if bytes::u32_at(order, block, 16) == V4L2_FRMIVAL_TYPE_DISCRETE {
            before.push(
                FrameInterval {
                    numerator: bytes::u32_at(order, block, 20),
                    denominator: bytes::u32_at(order, block, 24),
                },
            )
        } else {
            before
        }
    }
}

/// The discrete frame intervals of a format and size. `blocks` are what
/// `VIDIOC_ENUM_FRAMEINTERVALS` returned for the indices 0, 1 and so on, up to the first index
/// that it refused.
pub fn enumerate_frame_intervals(order: ByteOrder, blocks: &Vec<[u8; 52]>) -> (r: Vec<FrameInterval>)
    ensures
        r@ == frame_intervals_in(order, blocks@),
{
    let mut intervals: Vec<FrameInterval> = Vec::new();
    for i in 0..blocks.len()
        invariant
            intervals@ == frame_intervals_in(order, blocks@.take(i as int)),
    {
        let block = blocks[i].as_slice();
        if read_u32(order, block, 16) == V4L2_FRMIVAL_TYPE_DISCRETE {
            intervals.push(
                FrameInterval {
                    numerator: read_u32(order, block, 20),
                    denominator: read_u32(order, block, 24),
                },
            );
        }
        proof {
            assert(blocks@.take(i + 1).drop_last() =~= blocks@.take(i as int));
        }
    }
    proof {
        assert(blocks@.take(blocks@.len() as int) =~= blocks@);
    }
    intervals
}

/// One frame size of a format, with its frame intervals.
#[derive(Debug, Clone)]
pub struct SizeModes {
    pub size: FrameSize,
    pub intervals: Vec<FrameInterval>,
}

/// One pixel format, with its frame sizes.
#[derive(Debug, Clone)]
pub struct FormatModes {
    pub format: PixelFormat,
    pub sizes: Vec<SizeModes>,
}

/// The modes of one format and size: one for each interval.
pub open spec fn modes_of_size(format: PixelFormat, s: SizeModes) -> Seq<VideoMode> {
    s.intervals@.map_values(
        |interval: FrameInterval|
            VideoMode {
                format,
                width: s.size.width,
                height: s.size.height,
                fps_numerator: interval.numerator,
                fps_denominator: interval.denominator,
            },
    )
}

/// The modes of the first `n` sizes of a format.
pub open spec fn modes_of_sizes(format: PixelFormat, sizes: Seq<SizeModes>, n: nat) -> Seq<VideoMode>
    decreases n,
{
    if n == 0 {
        Seq::empty()
    } else {
        modes_of_sizes(format, sizes, (n - 1) as nat) + modes_of_size(format, sizes[n - 1])
    }
}

/// The modes of the first `n` formats.
pub open spec fn modes_of_formats(all: Seq<FormatModes>, n: nat) -> Seq<VideoMode>
    decreases n,
{
    if n == 0 {
        Seq::empty()
    } else {
        let f = all[n - 1];
        modes_of_formats(all, (n - 1) as nat) + modes_of_sizes(f.format, f.sizes@, f.sizes@.len())
    }
}

/// Build the complete list of video modes supported by a device: for each format, for each of its
/// sizes, one mode for each interval, in this order.
pub fn enumerate_all_modes(all: &Vec<FormatModes>) -> (r: Vec<VideoMode>)
    ensures
        r@ == modes_of_formats(all@, all@.len()),
{
    let mut modes: Vec<VideoMode> = Vec::new();
    for i in 0..all.len()
        invariant
            modes@ == modes_of_formats(all@, i as nat),
    {
        let entry = &all[i];
        let ghost before = modes@;
        for j in 0..entry.sizes.len()
            invariant
                modes@ == before + modes_of_sizes(entry.format, entry.sizes@, j as nat),
        {
            let size = &entry.sizes[j];
            let ghost middle = modes@;
            for k in 0..size.intervals.len()
                invariant
                    modes@ == middle + modes_of_size(entry.format, *size).take(k as int),
            {
                let interval = size.intervals[k];
                modes.push(
                    VideoMode {
                        format: entry.format,
                        width: size.size.width,
                        height: size.size.height,
                        fps_numerator: interval.numerator,
                        fps_denominator: interval.denominator,
                    },
                );
                proof {
                    assert(modes@ =~= middle + modes_of_size(entry.format, *size).take(k + 1));
                }
            }
            proof {
                assert(modes@ =~= before + modes_of_sizes(entry.format, entry.sizes@, (j + 1) as nat));
            }
        }
    }
    modes
}

// ---------------------------------------------------------------------------------------------
// Controls
// ---------------------------------------------------------------------------------------------

/// The block of `VIDIOC_G_CTRL` and `VIDIOC_S_CTRL`.
pub open spec fn control_block(order: ByteOrder, id: u32, value: i32) -> Seq<u8> {
    bytes::patched(
        bytes::patched(bytes::zeros(8), 0, bytes::u32_bytes(order, id)),
        4,
        bytes::u32_bytes(order, bytes::pattern32(value)),
    )
}

/// The block that asks `VIDIOC_G_CTRL` for the value of a control.
pub fn get_control_request(order: ByteOrder, id: u32) -> (r: [u8; 8])
    ensures
        r@ == control_block(order, id, 0),
{
    set_control(order, id, 0)
}

/// The value in the block that `VIDIOC_G_CTRL` filled.
pub fn get_control(order: ByteOrder, block: &[u8; 8]) -> (r: i64)
    ensures
        r == bytes::i32_at(order, block@, 4),
{
    read_i32(order, block.as_slice(), 4) as i64
}

/// The block that makes `VIDIOC_S_CTRL` set a control.
pub fn set_control(order: ByteOrder, id: u32, value: i32) -> (r: [u8; 8])
    ensures
        r@ == control_block(order, id, value),
{
    let mut block = [0u8; 8];
    proof {
        assert(block@ =~= bytes::zeros(8));
    }
    write_u32(order, &mut block, 0, id);
    write_i32(order, &mut block, 4, value);
    block
}

/// The part of a 64-bit control value that fits the 32-bit field: its low 32 bits, read as a
/// two's complement number.
pub open spec fn low_half(value: i64) -> i32 {
    bytes::signed32((value as int % 0x1_0000_0000) as u32)
}

/// The low 32 bits of a control value, as a two's complement number.
pub fn control_field(value: i64) -> (r: i32)
    ensures
        r == low_half(value),
{
    let low: u64 = if value >= 0 {
        value as u64 % 0x1_0000_0000
    } else {
        0xffff_ffff - (-(value + 1)) as u64 % 0x1_0000_0000
    };
    if low < 0x8000_0000 {
        low as i32
    } else {
        (low as i64 - 0x1_0000_0000) as i32
    }
}

/// The block that asks `VIDIOC_QUERYCTRL` for the first control after a given one.
pub open spec fn next_control_query(order: ByteOrder, after: u32) -> Seq<u8> {
    bytes::patched(
        bytes::zeros(68),
        0,
        bytes::u32_bytes(order, after | V4L2_CTRL_FLAG_NEXT_CTRL),
    )
}

/// The block that asks `VIDIOC_QUERYMENU` for one menu item of a control.
pub open spec fn menu_item_query(order: ByteOrder, id: u32, index: u32) -> Seq<u8> {
    bytes::patched(
        bytes::patched(bytes::zeros(68), 0, bytes::u32_bytes(order, id)),
        4,
        bytes::u32_bytes(order, index),
    )
}

/// A control as the kernel describes it, and the range of its menu.
#[derive(Debug, Clone)]
pub struct ControlInfo {
    pub name: String,
    pub id: u32,
    pub control_type: ControlType,
    pub minimum: i64,
    pub maximum: i64,
    pub step: i64,
    pub default: i64,
    pub flags: u32,
    /// The first and the last index of the menu, where the control has one.
    pub first_item: u32,
    pub last_item: u32,
}

/// What a control is, with its name as a character sequence.
pub ghost struct InfoModel {
    pub name: Seq<char>,
    pub id: u32,
    pub control_type: ControlType,
    pub minimum: int,
    pub maximum: int,
    pub step: int,
    pub default: int,
    pub flags: u32,
    pub first_item: u32,
    pub last_item: u32,
}

impl View for ControlInfo {
    type V = InfoModel;

    open spec fn view(&self) -> InfoModel {
        InfoModel {
            name: self.name@,
            id: self.id,
            control_type: self.control_type,
            minimum: self.minimum as int,
            maximum: self.maximum as int,
            step: self.step as int,
            default: self.default as int,
            flags: self.flags,
            first_item: self.first_item,
            last_item: self.last_item,
        }
    }
}

/// What the block that `VIDIOC_QUERYCTRL` filled says. The bounds of a menu are the bounds of the
/// value, taken as unsigned numbers.
pub open spec fn info_in(order: ByteOrder, block: Seq<u8>) -> InfoModel {
    InfoModel {
        name: text_at(block, 8, 40),
        id: bytes::u32_at(order, block, 0),
        control_type: types::control_type_of(bytes::u32_at(order, block, 4)),
        minimum: bytes::i32_at(order, block, 40) as int,
        maximum: bytes::i32_at(order, block, 44) as int,
        step: bytes::i32_at(order, block, 48) as int,
        default: bytes::i32_at(order, block, 52) as int,
        flags: bytes::u32_at(order, block, 56),
        first_item: bytes::u32_at(order, block, 40),
        last_item: bytes::u32_at(order, block, 44),
    }
}

/// Whether a control is listed: disabled controls and the headings of control classes are not.
pub open spec fn is_listed(info: InfoModel) -> bool {
    info.flags & V4L2_CTRL_FLAG_DISABLED == 0 && info.control_type != ControlType::CtrlClass
}

/// Whether the menu of a control is asked for, item by item.
pub open spec fn has_items(info: InfoModel) -> bool {
    types::is_menu(info.control_type) && info.first_item <= info.last_item
}

/// One item of a menu, with its name as a character sequence.
pub ghost struct ItemModel {
    pub index: u32,
    pub name: Seq<char>,
}

impl View for MenuItem {
    type V = ItemModel;

    open spec fn view(&self) -> ItemModel {
        ItemModel { index: self.index, name: self.name@ }
    }
}

/// A control with its current value and its menu, with texts as character sequences.
pub ghost struct ControlModel {
    pub info: InfoModel,
    pub value: int,
    pub items: Seq<ItemModel>,
}

/// The models of menu items.
pub open spec fn item_models(items: Seq<MenuItem>) -> Seq<ItemModel> {
    items.map_values(|i: MenuItem| i@)
}

/// Whether a listed control says what the model says.
pub open spec fn says(c: ControlValue, m: ControlModel) -> bool {
    &&& c.name@ == m.info.name
    &&& c.id == m.info.id
    &&& c.control_type == m.info.control_type
    &&& c.value == m.value
    &&& c.minimum == m.info.minimum
    &&& c.maximum == m.info.maximum
    &&& c.step == m.info.step
    &&& c.default == m.info.default
    &&& c.flags == m.info.flags
    &&& item_models(c.menu_items@) == m.items
}

/// Whether a list of controls says what a list of models says.
pub open spec fn all_say(controls: Seq<ControlValue>, models: Seq<ControlModel>) -> bool {
    &&& controls.len() == models.len()
    &&& forall|i: int| 0 <= i < models.len() ==> says(#[trigger] controls[i], models[i])
}

/// What the enumeration of controls waits for.
#[derive(Debug, Clone)]
pub enum ControlPhase {
    /// The next control.
    Control,
    /// The value of a control.
    Value(ControlInfo),
    /// One item of the menu of a control.
    Item { info: ControlInfo, value: i64, next: u32, items: Vec<MenuItem> },
    /// Nothing: there are no more controls.
    Finished,
}

/// What the enumeration of controls waits for, with its data as models.
pub ghost enum PhaseModel {
    Control,
    Value(InfoModel),
    Item { info: InfoModel, value: int, next: u32, items: Seq<ItemModel> },
    Finished,
}

impl View for ControlPhase {
    type V = PhaseModel;

    open spec fn view(&self) -> PhaseModel {
        match *self {
            ControlPhase::Control => PhaseModel::Control,
            ControlPhase::Value(info) => PhaseModel::Value(info@),
            ControlPhase::Item { info, value, next, items } => PhaseModel::Item {
                info: info@,
                value: value as int,
                next,
                items: item_models(items@),
            },
            ControlPhase::Finished => PhaseModel::Finished,
        }
    }
}

/// What is to be asked next.
#[derive(Debug, Clone, Copy)]
pub enum ControlRequest {
    /// A block for `VIDIOC_QUERYCTRL`.
    Control([u8; 68]),
    /// A block for `VIDIOC_G_CTRL`.
    Value([u8; 8]),
    /// A block for `VIDIOC_QUERYMENU`.
    Item([u8; 68]),
    /// Nothing.
    Finished,
}

/// What the kernel answered.
#[derive(Debug, Clone, Copy)]
pub enum ControlReply {
    /// The call succeeded and filled a block of 68 bytes.
    Described([u8; 68]),
    /// The call succeeded and filled a block of 8 bytes.
    Read([u8; 8]),
    /// The call failed.
    Refused,
}

/// The state of an enumeration, with its data as models.
pub ghost struct EnumerationModel {
    pub last_id: u32,
    pub controls: Seq<ControlModel>,
    pub phase: PhaseModel,
}

/// Before the first question.
pub open spec fn enumeration_start() -> EnumerationModel {
    EnumerationModel { last_id: 0, controls: Seq::empty(), phase: PhaseModel::Control }
}

/// With one more control listed.
pub open spec fn listed(m: EnumerationModel, info: InfoModel, value: int, items: Seq<ItemModel>) -> EnumerationModel {
    EnumerationModel {
        controls: m.controls.push(ControlModel { info, value, items }),
        phase: PhaseModel::Control,
        ..m
    }
}

/// The items of a menu with the answer for the item `next`: an item that the kernel refuses is
/// left out.
pub open spec fn with_item(items: Seq<ItemModel>, next: u32, reply: ControlReply) -> Seq<ItemModel> {
    match reply {
        ControlReply::Described(block) => items.push(
            ItemModel { index: next, name: text_at(block@, 8, 40) },
        ),
        _ => items,
    }
}

/// The state after an answer.
pub open spec fn after_reply(order: ByteOrder, m: EnumerationModel, reply: ControlReply) -> EnumerationModel {
    match m.phase {
        PhaseModel::Control => match reply {
            ControlReply::Described(block) => {
                let info = info_in(order, block@);
                EnumerationModel {
                    last_id: info.id,
                    phase: if is_listed(info) {
                        PhaseModel::Value(info)
                    } else {
                        PhaseModel::Control
                    },
                    ..m
                }
            },
            _ => EnumerationModel { phase: PhaseModel::Finished, ..m },
        },
        PhaseModel::Value(info) => {
            let value: int = match reply {
                ControlReply::Read(block) => bytes::i32_at(order, block@, 4) as int,
                _ => 0,
            };
            if has_items(info) {
                EnumerationModel {
                    phase: PhaseModel::Item {
                        info,
                        value,
                        next: info.first_item,
                        items: Seq::empty(),
                    },
                    ..m
                }
            } else {
                listed(m, info, value, Seq::empty())
            }
        },
        PhaseModel::Item { info, value, next, items } => {
            let items = with_item(items, next, reply);
            if next >= info.last_item {
                listed(m, info, value, items)
            } else {
                EnumerationModel {
                    phase: PhaseModel::Item { info, value, next: (next + 1) as u32, items },
                    ..m
                }
            }
        },
        PhaseModel::Finished => m,
    }
}

/// The enumeration of the controls of a device, as a dialogue with the kernel: the caller asks
/// what [`ControlEnumeration::request`] says, hands the answer to [`ControlEnumeration::reply`],
/// and goes on until nothing is left to ask.
#[derive(Debug, Clone)]
pub struct ControlEnumeration {
    pub order: ByteOrder,
    /// The control that was described last.
    pub last_id: u32,
    pub controls: Vec<ControlValue>,
    pub phase: ControlPhase,
}

impl ControlEnumeration {
    /// Whether the enumeration is in the state of a model.
    pub open spec fn is_at(self, m: EnumerationModel) -> bool {
        &&& self.last_id == m.last_id
        &&& all_say(self.controls@, m.controls)
        &&& self.phase@ == m.phase
    }

    /// An enumeration that has not asked anything yet. It starts before the first control.
    pub fn new(order: ByteOrder) -> (r: Self)
        ensures
            r.order == order,
            r.is_at(enumeration_start()),
    {
        ControlEnumeration {
            order,
            last_id: 0,
            controls: Vec::new(),
            phase: ControlPhase::Control,
        }
    }

    /// What is to be asked next: the control after the last one, the value of a control, or the
    /// next item of its menu.
    pub fn request(&self) -> (r: ControlRequest)
        ensures
            match self.phase {
                ControlPhase::Control => r matches ControlRequest::Control(b) && b@
                    == next_control_query(self.order, self.last_id),
                ControlPhase::Value(info) => r matches ControlRequest::Value(b) && b@
                    == control_block(self.order, info.id, 0),
                ControlPhase::Item { info, next, .. } => r matches ControlRequest::Item(b) && b@
                    == menu_item_query(self.order, info.id, next),
                ControlPhase::Finished => r is Finished,
            },
    {
        match &self.phase {
            ControlPhase::Control => {
                let mut block = [0u8; 68];
                proof {
                    assert(block@ =~= bytes::zeros(68));
                }
                write_u32(self.order, &mut block, 0, self.last_id | V4L2_CTRL_FLAG_NEXT_CTRL);
                ControlRequest::Control(block)
            },
            ControlPhase::Value(info) => ControlRequest::Value(
                get_control_request(self.order, info.id),
            ),
            ControlPhase::Item { info, next, .. } => {
                let mut block = [0u8; 68];
                proof {
                    assert(block@ =~= bytes::zeros(68));
                }
                write_u32(self.order, &mut block, 0, info.id);
                write_u32(self.order, &mut block, 4, *next);
                ControlRequest::Item(block)
            },
            ControlPhase::Finished => ControlRequest::Finished,
        }
    }

    /// Takes the answer to the last request.
    pub fn reply(self, reply: ControlReply) -> (r: Self)
        ensures
            r.order == self.order,
            forall|m: EnumerationModel| #[trigger]
                self.is_at(m) ==> r.is_at(after_reply(self.order, m, reply)),
    {
        let ControlEnumeration { order, last_id, controls, phase } = self;
        match phase {
            ControlPhase::Control => match reply {
                ControlReply::Described(block) => {
                    let info = read_control_info(order, &block);
                    let id: u32 = info.id;
                    let next = if info.flags & V4L2_CTRL_FLAG_DISABLED == 0 && info.control_type
                        != ControlType::CtrlClass {
                        ControlPhase::Value(info)
                    } else {
                        ControlPhase::Control
                    };
                    ControlEnumeration { order, last_id: id, controls, phase: next }
                },
                _ => ControlEnumeration { order, last_id, controls, phase: ControlPhase::Finished },
            },
            ControlPhase::Value(info) => {
                let value: i64 = match reply {
                    ControlReply::Read(block) => get_control(order, &block),
                    _ => 0,
                };
                let items: Vec<MenuItem> = Vec::new();
                proof {
                    assert(item_models(items@) =~= Seq::empty());
                }
                if info.control_type.has_menu() && info.first_item <= info.last_item {
                    let next: u32 = info.first_item;
                    ControlEnumeration {
                        order,
                        last_id,
                        controls,
                        phase: ControlPhase::Item { info, value, next, items },
                    }
                } else {
                    let mut controls = controls;
                    controls.push(info.listed_with(value, items));
                    ControlEnumeration { order, last_id, controls, phase: ControlPhase::Control }
                }
            },
            ControlPhase::Item { info, value, next, items } => {
                let mut items = items;
                let ghost before = items@;
                match reply {
                    ControlReply::Described(block) => {
                        let name = read_fixed_string(slice_subrange(block.as_slice(), 8, 40));
                        items.push(MenuItem { index: next, name });
                        proof {
                            assert(item_models(items@) =~= item_models(before).push(
                                ItemModel { index: next, name: text_at(block@, 8, 40) },
                            ));
                        }
                    },
                    _ => {},
                }
                proof {
                    assert(item_models(items@) == with_item(item_models(before), next, reply));
                }
                if next >= info.last_item {
                    let mut controls = controls;
                    controls.push(info.listed_with(value, items));
                    ControlEnumeration { order, last_id, controls, phase: ControlPhase::Control }
                } else {
                    ControlEnumeration {
                        order,
                        last_id,
                        controls,
                        phase: ControlPhase::Item { info, value, next: next + 1, items },
                    }
                }
            },
            ControlPhase::Finished => ControlEnumeration {
                order,
                last_id,
                controls,
                phase: ControlPhase::Finished,
            },
        }
    }
}

impl ControlInfo {
    /// The control with its value and its menu.
    fn listed_with(self, value: i64, items: Vec<MenuItem>) -> (r: ControlValue)
        ensures
            says(r, (ControlModel { info: self@, value: value as int, items: item_models(items@) })),
    {
        ControlValue {
            name: self.name,
            id: self.id,
            control_type: self.control_type,
            value,
            minimum: self.minimum,
            maximum: self.maximum,
            step: self.step,
            default: self.default,
            flags: self.flags,
            menu_items: items,
        }
    }
}

/// Reads the block that `VIDIOC_QUERYCTRL` filled.
fn read_control_info(order: ByteOrder, block: &[u8; 68]) -> (r: ControlInfo)
    ensures
        r@ == info_in(order, block@),
{
    let b = block.as_slice();
    ControlInfo {
        name: read_fixed_string(slice_subrange(b, 8, 40)),
        id: read_u32(order, b, 0),
        control_type: ControlType::from_raw(read_u32(order, b, 4)),
        minimum: read_i32(order, b, 40) as i64,
        maximum: read_i32(order, b, 44) as i64,
        step: read_i32(order, b, 48) as i64,
        default: read_i32(order, b, 52) as i64,
        flags: read_u32(order, b, 56),
        first_item: read_u32(order, b, 40),
        last_item: read_u32(order, b, 44),
    }
}

/// The state after a list of answers.
pub open spec fn after_replies(order: ByteOrder, m: EnumerationModel, replies: Seq<ControlReply>) -> EnumerationModel
    decreases replies.len(),
{
    if replies.len() == 0 {
        m
    } else {
        after_reply(order, after_replies(order, m, replies.drop_last()), replies.last())
    }
}

/// The controls that a recorded dialogue lists: the answers to the requests of a
/// [`ControlEnumeration`] from its start.
pub fn enumerate_controls(order: ByteOrder, replies: &Vec<ControlReply>) -> (r: Vec<ControlValue>)
    ensures
        all_say(r@, after_replies(order, enumeration_start(), replies@).controls),
{
    let mut dialogue = ControlEnumeration::new(order);
    for i in 0..replies.len()
        invariant
            dialogue.order == order,
            dialogue.is_at(after_replies(order, enumeration_start(), replies@.take(i as int))),
    {
        let ghost before = after_replies(order, enumeration_start(), replies@.take(i as int));
        dialogue = dialogue.reply(replies[i]);
        proof {
            assert(replies@.take(i + 1).drop_last() =~= replies@.take(i as int));
            assert(dialogue.is_at(after_reply(order, before, replies@[i as int])));
        }
    }
    proof {
        assert(replies@.take(replies@.len() as int) =~= replies@);
    }
    dialogue.controls
}

// ---------------------------------------------------------------------------------------------
// Frame formats
// ---------------------------------------------------------------------------------------------

/// The block that makes `VIDIOC_S_FMT` set the frame format of a queue.
pub open spec fn format_block(order: ByteOrder, buf_type: u32, width: u32, height: u32, fourcc: u32) -> Seq<u8> {
    bytes::patched(
        bytes::patched(
            bytes::patched(
                bytes::patched(bytes::zeros(208), 0, bytes::u32_bytes(order, buf_type)),
                8,
                bytes::u32_bytes(order, width),
            ),
            12,
            bytes::u32_bytes(order, height),
        ),
        16,
        bytes::u32_bytes(order, fourcc),
    )
}

fn write_format(order: ByteOrder, buf_type: u32, width: u32, height: u32, fourcc: u32) -> (r: [u8; 208])
    ensures
        r@ == format_block(order, buf_type, width, height, fourcc),
{
    let mut block = [0u8; 208];
    proof {
        assert(block@ =~= bytes::zeros(208));
    }
    write_u32(order, &mut block, 0, buf_type);
    write_u32(order, &mut block, 8, width);
    write_u32(order, &mut block, 12, height);
    write_u32(order, &mut block, 16, fourcc);
    block
}

/// The block that makes `VIDIOC_S_FMT` set the capture format of a device.
pub fn set_format(order: ByteOrder, width: u32, height: u32, fourcc: u32) -> (r: [u8; 208])
    ensures
        r@ == format_block(order, V4L2_BUF_TYPE_VIDEO_CAPTURE, width, height, fourcc),
{
    write_format(order, V4L2_BUF_TYPE_VIDEO_CAPTURE, width, height, fourcc)
}

/// The block that makes `VIDIOC_S_FMT` set the output format of a v4l2loopback device.
pub fn set_output_format(order: ByteOrder, width: u32, height: u32, fourcc: u32) -> (r: [u8; 208])
    ensures
        r@ == format_block(order, V4L2_BUF_TYPE_VIDEO_OUTPUT, width, height, fourcc),
{
    write_format(order, V4L2_BUF_TYPE_VIDEO_OUTPUT, width, height, fourcc)
}

/// The block that asks `VIDIOC_G_FMT` for the capture format.
pub open spec fn format_readback(order: ByteOrder) -> Seq<u8> {
    bytes::patched(bytes::zeros(208), 0, bytes::u32_bytes(order, V4L2_BUF_TYPE_VIDEO_CAPTURE))
}

/// The block that asks `VIDIOC_G_FMT` for the capture format.
pub fn actual_format_request(order: ByteOrder) -> (r: [u8; 208])
    ensures
        r@ == format_readback(order),
{
    let mut block = [0u8; 208];
    proof {
        assert(block@ =~= bytes::zeros(208));
    }
    write_u32(order, &mut block, 0, V4L2_BUF_TYPE_VIDEO_CAPTURE);
    block
}

/// The width, the height and the four bytes of the fourcc code in the block that `VIDIOC_G_FMT`
/// filled: the format that the driver settled on.
pub fn get_actual_format(order: ByteOrder, block: &[u8; 208]) -> (r: (u32, u32, [u8; 4]))
    ensures
        r.0 == bytes::u32_at(order, block@, 8),
        r.1 == bytes::u32_at(order, block@, 12),
        r.2@ == block@.subrange(16, 20),
{
    let b = block.as_slice();
    let code = [b[16], b[17], b[18], b[19]];
    proof {
        assert(code@ =~= block@.subrange(16, 20));
    }
    (read_u32(order, b, 8), read_u32(order, b, 12), code)
}

// ---------------------------------------------------------------------------------------------
// Buffers and streaming
// ---------------------------------------------------------------------------------------------

/// The block that asks `VIDIOC_REQBUFS` for memory-mapped buffers.
pub open spec fn buffers_query(order: ByteOrder, count: u32, buf_type: u32) -> Seq<u8> {
    bytes::patched(
        bytes::patched(
            bytes::patched(bytes::zeros(20), 0, bytes::u32_bytes(order, count)),
            4,
            bytes::u32_bytes(order, buf_type),
        ),
        8,
        bytes::u32_bytes(order, V4L2_MEMORY_MMAP),
    )
}

/// The block that asks `VIDIOC_REQBUFS` for memory-mapped buffers.
pub fn buffers_request(order: ByteOrder, count: u32, buf_type: u32) -> (r: [u8; 20])
    ensures
        r@ == buffers_query(order, count, buf_type),
{
    let mut block = [0u8; 20];
    proof {
        assert(block@ =~= bytes::zeros(20));
    }
    write_u32(order, &mut block, 0, count);
    write_u32(order, &mut block, 4, buf_type);
    write_u32(order, &mut block, 8, V4L2_MEMORY_MMAP);
    block
}

/// How many buffers `VIDIOC_REQBUFS` granted.
pub fn request_buffers(order: ByteOrder, block: &[u8; 20]) -> (r: u32)
    ensures
        r == bytes::u32_at(order, block@, 0),
{
    read_u32(order, block.as_slice(), 0)
}

/// The block of `VIDIOC_STREAMON`: the type of the queue.
pub fn stream_on(order: ByteOrder, buf_type: u32) -> (r: [u8; 4])
    ensures
        r@ == bytes::u32_bytes(order, buf_type),
{
    let mut block = [0u8; 4];
    write_u32(order, &mut block, 0, buf_type);
    proof {
        assert(block@ =~= bytes::u32_bytes(order, buf_type));
    }
    block
}

/// The block of `VIDIOC_STREAMOFF`: the type of the queue.
pub fn stream_off(order: ByteOrder, buf_type: u32) -> (r: [u8; 4])
    ensures
        r@ == bytes::u32_bytes(order, buf_type),
{
    stream_on(order, buf_type)
}

/// The block that names one memory-mapped buffer of a queue.
pub open spec fn buffer_block(order: ByteOrder, index: u32, buf_type: u32) -> Seq<u8> {
    bytes::patched(
        bytes::patched(
            bytes::patched(bytes::zeros(88), 0, bytes::u32_bytes(order, index)),
            4,
            bytes::u32_bytes(order, buf_type),
        ),
        60,
        bytes::u32_bytes(order, V4L2_MEMORY_MMAP),
    )
}

/// The block of `VIDIOC_QBUF`: it enqueues a buffer for capture. `VIDIOC_QUERYBUF` takes the same
/// block.
pub fn queue_buffer(order: ByteOrder, index: u32, buf_type: u32) -> (r: [u8; 88])
    ensures
        r@ == buffer_block(order, index, buf_type),
{
    let mut block = [0u8; 88];
    proof {
        assert(block@ =~= bytes::zeros(88));
    }
    write_u32(order, &mut block, 0, index);
    write_u32(order, &mut block, 4, buf_type);
    write_u32(order, &mut block, 60, V4L2_MEMORY_MMAP);
    block
}

/// The length and the offset in the block that `VIDIOC_QUERYBUF` filled: where one buffer is to be
/// mapped from.
pub fn query_buffer(order: ByteOrder, block: &[u8; 88]) -> (r: (u32, u32))
    ensures
        r.0 == bytes::u32_at(order, block@, 72),
        r.1 == bytes::u32_at(order, block@, 64),
{
    let b = block.as_slice();
    (read_u32(order, b, 72), read_u32(order, b, 64))
}

/// The block that `VIDIOC_DQBUF` takes: any buffer of the queue will do, so it names none.
pub fn dequeue_request(order: ByteOrder, buf_type: u32) -> (r: [u8; 88])
    ensures
        r@ == buffer_block(order, 0, buf_type),
{
    queue_buffer(order, 0, buf_type)
}

/// The capture time in the block that `VIDIOC_DQBUF` filled, in whole milliseconds: the block holds
/// seconds and microseconds.
pub open spec fn capture_millis(order: ByteOrder, block: Seq<u8>) -> int {
    bytes::i64_at(order, block, 24) * 1000 + bytes::i64_at(order, block, 32) / 1000
}

/// Whether the capture time in the block that `VIDIOC_DQBUF` filled can be given in milliseconds.
pub open spec fn capture_time_fits(order: ByteOrder, block: Seq<u8>) -> bool {
    bytes::i64_at(order, block, 24) >= 0 && 0 <= capture_millis(order, block) <= u64::MAX
}

fn capture_time(order: ByteOrder, block: &[u8; 88]) -> (r: i128)
    ensures
        r == capture_millis(order, block@),
{
    let b = block.as_slice();
    let secs: i64 = read_i64(order, b, 24);
    let micros: i64 = read_i64(order, b, 32);
    let part: i64 = if micros >= 0 {
        (micros as u64 / 1000) as i64
    } else {
        let below: u64 = (-1 - micros) as u64;
        -1 - (below / 1000) as i64
    };
    proof {
        assert(part == micros as int / 1000);
    }
    secs as i128 * 1000 + part as i128
}

/// Whether the capture time of a dequeued buffer can be given in milliseconds.
pub fn has_capture_time(order: ByteOrder, block: &[u8; 88]) -> (r: bool)
    ensures
        r == capture_time_fits(order, block@),
{
    let time: i128 = capture_time(order, block);
    read_i64(order, block.as_slice(), 24) >= 0 && 0 <= time && time <= u64::MAX as i128
}

/// The index, the number of bytes used, the sequence number and the capture time in milliseconds
/// of the buffer that `VIDIOC_DQBUF` handed out.
pub fn dequeue_buffer(order: ByteOrder, block: &[u8; 88]) -> (r: (u32, u32, u32, u64))
    requires
        capture_time_fits(order, block@),
    ensures
        r.0 == bytes::u32_at(order, block@, 0),
        r.1 == bytes::u32_at(order, block@, 8),
        r.2 == bytes::u32_at(order, block@, 56),
        r.3 == bytes::i64_at(order, block@, 24) * 1000 + bytes::i64_at(order, block@, 32) / 1000,
{
    let b = block.as_slice();
    let time: i128 = capture_time(order, block);
    (read_u32(order, b, 0), read_u32(order, b, 8), read_u32(order, b, 56), time as u64)
}

// ---------------------------------------------------------------------------------------------
// Control names
// ---------------------------------------------------------------------------------------------

/// The id of the control with a common name, in lower case.
pub open spec fn control_id(name: Seq<char>) -> Option<u32> {
    if name == "brightness"@ {
        Some(0x00980900)
    } else if name == "contrast"@ {
        Some(0x00980901)
    } else if name == "saturation"@ {
        Some(0x00980902)
    } else if name == "sharpness"@ {
        Some(0x0098091B)
    } else if name == "exposure_auto"@ || name == "auto_exposure"@ {
        Some(0x009A0901)
    } else if name == "exposure_absolute"@ || name == "exposure_time_absolute"@ || name
        == "exposure"@ {
        Some(0x009A0902)
    } else if name == "zoom_absolute"@ || name == "zoom"@ {
        Some(0x009A090D)
    } else if name == "pan_absolute"@ || name == "pan"@ {
        Some(0x009A0908)
    } else if name == "tilt_absolute"@ || name == "tilt"@ {
        Some(0x009A0909)
    } else if name == "white_balance_temperature_auto"@ || name == "auto_white_balance"@ {
        Some(0x0098090C)
    } else if name == "white_balance_auto"@ || name == "white_balance_automatic"@ {
        Some(0x0098090C)
    } else if name == "white_balance_temperature"@ {
        Some(0x0098091A)
    } else if name == "power_line_frequency"@ || name == "anti_flicker"@ {
        Some(0x00980918)
    } else if name == "gain"@ {
        Some(0x00980913)
    } else {
        None
    }
}

/// The id of the control with a common name. The name is written in lower case.
pub fn lowercase_name_to_id(name: &str) -> (r: Option<u32>)
    ensures
        r == control_id(name@),
{
    if text_eq(name, "brightness") {
        Some(V4L2_CID_BASE)
    } else if text_eq(name, "contrast") {
        Some(V4L2_CID_BASE + 1)
    } else if text_eq(name, "saturation") {
        Some(V4L2_CID_BASE + 2)
    } else if text_eq(name, "sharpness") {
        Some(V4L2_CID_BASE + 27)
    } else if text_eq(name, "exposure_auto") || text_eq(name, "auto_exposure") {
        Some(V4L2_CID_CAMERA_CLASS_BASE + 1)
    } else if text_eq(name, "exposure_absolute") || text_eq(name, "exposure_time_absolute")
        || text_eq(name, "exposure") {
        Some(V4L2_CID_CAMERA_CLASS_BASE + 2)
    } else if text_eq(name, "zoom_absolute") || text_eq(name, "zoom") {
        Some(V4L2_CID_CAMERA_CLASS_BASE + 13)
    } else if text_eq(name, "pan_absolute") || text_eq(name, "pan") {
        Some(V4L2_CID_CAMERA_CLASS_BASE + 8)
    } else if text_eq(name, "tilt_absolute") || text_eq(name, "tilt") {
        Some(V4L2_CID_CAMERA_CLASS_BASE + 9)
    } else if text_eq(name, "white_balance_temperature_auto") || text_eq(
        name,
        "auto_white_balance",
    ) {
        Some(V4L2_CID_BASE + 12)
    } else if text_eq(name, "white_balance_auto") || text_eq(name, "white_balance_automatic") {
        Some(V4L2_CID_BASE + 12)
    } else if text_eq(name, "white_balance_temperature") {
        Some(V4L2_CID_BASE + 26)
    } else if text_eq(name, "power_line_frequency") || text_eq(name, "anti_flicker") {
        Some(V4L2_CID_BASE + 24)
    } else if text_eq(name, "gain") {
        Some(V4L2_CID_BASE + 19)
    } else {
        None
    }
}

/// The id of the control with a common name, without regard to the case of the name.
pub open spec fn named_id(name: Seq<char>) -> Option<u32> {
    if is_ascii_chars(name) {
        control_id(name.map_values(|c: char| text::ascii_lower(c)))
    } else {
        control_id(text::lowercase(name))
    }
}

/// Common control name to ID mapping, without regard to the case of the name
pub fn control_name_to_id(name: &str) -> (r: Option<u32>)
    ensures
        r == named_id(name@),
{
    let lower = to_lower(name);
    lowercase_name_to_id(lower.as_str())
}

// ---------------------------------------------------------------------------------------------
// Laws
// ---------------------------------------------------------------------------------------------

/// Whether a text is made of small letters and underscores.
spec fn is_small(name: Seq<char>) -> bool {
    forall|i: int| 0 <= i < name.len() ==> 'a' <= #[trigger] name[i] <= 'z' || name[i] == '_'
}

proof fn lemma_lower_case_stays(name: Seq<char>)
    requires
        is_small(name),
    ensures
        named_id(name) == control_id(name),
{
    assert(is_ascii_chars(name));
    assert(name.map_values(|c: char| text::ascii_lower(c)) =~= name);
}

proof fn lemma_long_names_are_no_others()
    ensures
        is_small("exposure_absolute"@),
        is_small("exposure_time_absolute"@),
        is_small("white_balance_auto"@),
        is_small("white_balance_temperature_auto"@),
        is_small("white_balance_automatic"@),
        control_id("exposure_absolute"@) == Some(0x009A0902u32),
        control_id("exposure_time_absolute"@) == Some(0x009A0902u32),
        control_id("white_balance_auto"@) == Some(0x0098090Cu32),
        control_id("white_balance_temperature_auto"@) == Some(0x0098090Cu32),
        control_id("white_balance_automatic"@) == Some(0x0098090Cu32),
{
    reveal_strlit("brightness");
    assert("brightness"@.len() == 10);
    reveal_strlit("contrast");
    assert("contrast"@.len() == 8);
    reveal_strlit("saturation");
    assert("saturation"@.len() == 10);
    reveal_strlit("sharpness");
    assert("sharpness"@.len() == 9);
    reveal_strlit("exposure_auto");
    assert("exposure_auto"@.len() == 13);
    reveal_strlit("auto_exposure");
    assert("auto_exposure"@.len() == 13);
    reveal_strlit("exposure_absolute");
    assert("exposure_absolute"@.len() == 17);
    reveal_strlit("exposure_time_absolute");
    assert("exposure_time_absolute"@.len() == 22);
    reveal_strlit("exposure");
    assert("exposure"@.len() == 8);
    reveal_strlit("zoom_absolute");
    assert("zoom_absolute"@.len() == 13);
    reveal_strlit("zoom");
    assert("zoom"@.len() == 4);
    reveal_strlit("pan_absolute");
    assert("pan_absolute"@.len() == 12);
    reveal_strlit("pan");
    assert("pan"@.len() == 3);
    reveal_strlit("tilt_absolute");
    assert("tilt_absolute"@.len() == 13);
    reveal_strlit("tilt");
    assert("tilt"@.len() == 4);
    reveal_strlit("white_balance_auto");
    assert("white_balance_auto"@.len() == 18);
    reveal_strlit("white_balance_temperature_auto");
    assert("white_balance_temperature_auto"@.len() == 30);
    reveal_strlit("white_balance_automatic");
    assert("white_balance_automatic"@.len() == 23);
}

/// The names that exposure and white balance go by have their ids: those of profiles and of the
/// original Facecam, and those of the Facecam Pro.
pub proof fn renamed_controls_have_ids()
    ensures
        named_id("exposure_absolute"@) == Some(0x009A0902u32),
        named_id("exposure_time_absolute"@) == Some(0x009A0902u32),
        named_id("white_balance_auto"@) == Some(0x0098090Cu32),
        named_id("white_balance_temperature_auto"@) == Some(0x0098090Cu32),
        named_id("white_balance_automatic"@) == Some(0x0098090Cu32),
{
    lemma_long_names_are_no_others();
    lemma_lower_case_stays("exposure_absolute"@);
    lemma_lower_case_stays("exposure_time_absolute"@);
    lemma_lower_case_stays("white_balance_auto"@);
    lemma_lower_case_stays("white_balance_temperature_auto"@);
    lemma_lower_case_stays("white_balance_automatic"@);
}

/// What a device answers about one control.
pub ghost struct ControlAnswers {
    /// The block that describes the control.
    pub described: [u8; 68],
    /// The answer to the question for its value.
    pub value: ControlReply,
    /// The answers to the questions for its menu items, in order.
    pub items: Seq<ControlReply>,
}

/// The items of a menu that starts at `first`, from the answers for them.
pub open spec fn items_in(first: u32, answers: Seq<ControlReply>) -> Seq<ItemModel>
    decreases answers.len(),
{
    if answers.len() == 0 {
        Seq::empty()
    } else {
        with_item(
            items_in(first, answers.drop_last()),
            (first + answers.len() - 1) as u32,
            answers.last(),
        )
    }
}

/// Whether a device answers about each item of the menu of a control, from the first to the last.
pub open spec fn answers_fit(order: ByteOrder, a: ControlAnswers) -> bool {
    let info = info_in(order, a.described@);
    a.items.len() == if is_listed(info) && has_items(info) {
        info.last_item - info.first_item + 1
    } else {
        0
    }
}

/// The answers about one control in the order in which the enumeration asks for them.
pub open spec fn dialogue_of(order: ByteOrder, a: ControlAnswers) -> Seq<ControlReply> {
    if is_listed(info_in(order, a.described@)) {
        seq![ControlReply::Described(a.described), a.value] + a.items
    } else {
        seq![ControlReply::Described(a.described)]
    }
}

/// The answers of a device with the given controls, until there are no more.
pub open spec fn full_dialogue(order: ByteOrder, device: Seq<ControlAnswers>) -> Seq<ControlReply>
    decreases device.len(),
{
    if device.len() == 0 {
        Seq::empty()
    } else {
        full_dialogue(order, device.drop_last()) + dialogue_of(order, device.last())
    }
}

/// The controls of a device that are listed, each with its value, which is 0 where it cannot be
/// read, and with those items of its menu that the device knows.
pub open spec fn controls_of(order: ByteOrder, device: Seq<ControlAnswers>) -> Seq<ControlModel>
    decreases device.len(),
{
    if device.len() == 0 {
        Seq::empty()
    } else {
        let before = controls_of(order, device.drop_last());
        let a = device.last();
        let info = info_in(order, a.described@);
        if is_listed(info) {
            before.push(
                ControlModel {
                    info,
                    value: match a.value {
                        ControlReply::Read(block) => bytes::i32_at(order, block@, 4) as int,
                        _ => 0,
                    },
                    items: items_in(info.first_item, a.items),
                },
            )
        } else {
            before
        }
    }
}

proof fn lemma_after_replies_append(
    order: ByteOrder,
    m: EnumerationModel,
    a: Seq<ControlReply>,
    b: Seq<ControlReply>,
)
    ensures
        after_replies(order, m, a + b) == after_replies(order, after_replies(order, m, a), b),
    decreases b.len(),
{
    if b.len() == 0 {
        assert(a + b =~= a);
    } else {
        lemma_after_replies_append(order, m, a, b.drop_last());
        assert((a + b).drop_last() =~= a + b.drop_last());
    }
}

proof fn lemma_menu_replies(
    order: ByteOrder,
    m: EnumerationModel,
    info: InfoModel,
    value: int,
    answers: Seq<ControlReply>,
)
    requires
        info.first_item <= info.last_item,
        answers.len() <= info.last_item - info.first_item + 1,
        m.phase == (PhaseModel::Item { info, value, next: info.first_item, items: Seq::empty() }),
    ensures
        answers.len() <= info.last_item - info.first_item ==> after_replies(order, m, answers) == (
        EnumerationModel {
            phase: PhaseModel::Item {
                info,
                value,
                next: (info.first_item + answers.len()) as u32,
                items: items_in(info.first_item, answers),
            },
            ..m
        }),
        answers.len() == info.last_item - info.first_item + 1 ==> after_replies(order, m, answers)
            == listed(m, info, value, items_in(info.first_item, answers)),
    decreases answers.len(),
{
    if answers.len() > 0 {
        lemma_menu_replies(order, m, info, value, answers.drop_last());
    }
}

proof fn lemma_one_control(order: ByteOrder, m: EnumerationModel, a: ControlAnswers)
    requires
        m.phase is Control,
        answers_fit(order, a),
    ensures
        ({
            let info = info_in(order, a.described@);
            let value: int = match a.value {
                ControlReply::Read(block) => bytes::i32_at(order, block@, 4) as int,
                _ => 0,
            };
            after_replies(order, m, dialogue_of(order, a)) == if is_listed(info) {
                listed(
                    EnumerationModel { last_id: info.id, ..m },
                    info,
                    value,
                    items_in(info.first_item, a.items),
                )
            } else {
                EnumerationModel { last_id: info.id, ..m }
            }
        }),
{
    let info = info_in(order, a.described@);
    let first = seq![ControlReply::Described(a.described)];
    assert(first.drop_last() =~= Seq::empty());
    assert(after_replies(order, m, first.drop_last()) == m);
    let m1 = after_replies(order, m, first);
    assert(m1 == after_reply(order, m, ControlReply::Described(a.described)));
    if is_listed(info) {
        let two = seq![ControlReply::Described(a.described), a.value];
        assert(two.drop_last() =~= first);
        let m2 = after_replies(order, m, two);
        assert(m2 == after_reply(order, m1, a.value));
        lemma_after_replies_append(order, m, two, a.items);
        if has_items(info) {
            let value: int = match a.value {
                ControlReply::Read(block) => bytes::i32_at(order, block@, 4) as int,
                _ => 0,
            };
            lemma_menu_replies(order, m2, info, value, a.items);
        }
    }
}

proof fn lemma_dialogue(order: ByteOrder, device: Seq<ControlAnswers>)
    requires
        forall|i: int| 0 <= i < device.len() ==> answers_fit(order, #[trigger] device[i]),
    ensures
        ({
            let m = after_replies(order, enumeration_start(), full_dialogue(order, device));
            m.phase is Control && m.controls == controls_of(order, device)
        }),
    decreases device.len(),
{
    if device.len() > 0 {
        let before = device.drop_last();
        assert forall|i: int| 0 <= i < before.len() implies answers_fit(order, #[trigger] before[i]) by {
            assert(before[i] == device[i]);
        }
        lemma_dialogue(order, before);
        let m = after_replies(order, enumeration_start(), full_dialogue(order, before));
        lemma_after_replies_append(
            order,
            enumeration_start(),
            full_dialogue(order, before),
            dialogue_of(order, device.last()),
        );
        lemma_one_control(order, m, device.last());
    }
}

/// The enumeration lists exactly the controls of a device that are neither disabled nor class
/// headings, in the order of the device, with their values and menus, and then it is finished.
pub proof fn enumeration_lists_the_device(order: ByteOrder, device: Seq<ControlAnswers>)
    requires
        forall|i: int| 0 <= i < device.len() ==> answers_fit(order, #[trigger] device[i]),
    ensures
        ({
            let m = after_replies(
                order,
                enumeration_start(),
                full_dialogue(order, device).push(ControlReply::Refused),
            );
            m.phase is Finished && m.controls == controls_of(order, device)
        }),
{
    lemma_dialogue(order, device);
    let script = full_dialogue(order, device);
    assert(script.push(ControlReply::Refused).drop_last() =~= script);
}

/// Once the enumeration is finished, no answer changes it.
pub proof fn finished_enumeration_stays(order: ByteOrder, m: EnumerationModel, reply: ControlReply)
    requires
        m.phase is Finished,
    ensures
        after_reply(order, m, reply) == m,
{
}

/// A listed control is never disabled and never a class heading, whatever the kernel answers.
pub proof fn listed_controls_are_usable(order: ByteOrder, replies: Seq<ControlReply>, i: int)
    requires
        0 <= i < after_replies(order, enumeration_start(), replies).controls.len(),
    ensures
        is_listed(after_replies(order, enumeration_start(), replies).controls[i].info),
    decreases replies.len(),
{
    lemma_phase_is_usable(order, replies);
    if replies.len() > 0 {
        let before = after_replies(order, enumeration_start(), replies.drop_last());
        lemma_phase_is_usable(order, replies.drop_last());
        if i < before.controls.len() {
            listed_controls_are_usable(order, replies.drop_last(), i);
        }
    }
}

proof fn lemma_phase_is_usable(order: ByteOrder, replies: Seq<ControlReply>)
    ensures
        match after_replies(order, enumeration_start(), replies).phase {
            PhaseModel::Value(info) => is_listed(info),
            PhaseModel::Item { info, .. } => is_listed(info),
            _ => true,
        },
    decreases replies.len(),
{
    if replies.len() > 0 {
        lemma_phase_is_usable(order, replies.drop_last());
    }
}

/// The value that a control is set to is the value that a read of the same block gives back.
pub proof fn control_block_round_trip(order: ByteOrder, id: u32, value: i32)
    ensures
        bytes::u32_at(order, control_block(order, id, value), 0) == id,
        bytes::i32_at(order, control_block(order, id, value), 4) == value,
{
    let first = bytes::patched(bytes::zeros(8), 0, bytes::u32_bytes(order, id));
    bytes::read_gives_back_write(order, bytes::zeros(8), 0, id);
    bytes::write_leaves_the_rest(order, first, 4, bytes::pattern32(value), 0);
    bytes::read_gives_back_signed_write(order, first, 4, value);
}

/// A control value that fits 32 bits is set as it is.
pub proof fn small_values_are_kept(value: i64)
    requires
        i32::MIN <= value <= i32::MAX,
    ensures
        low_half(value) == value,
{
}

/// A driver that accepts a capture format as requested reports the requested format back.
pub proof fn format_block_round_trip(
    order: ByteOrder,
    buf_type: u32,
    width: u32,
    height: u32,
    fourcc: u32,
)
    ensures
        ({
            let block = format_block(order, buf_type, width, height, fourcc);
            &&& bytes::u32_at(order, block, 0) == buf_type
            &&& bytes::u32_at(order, block, 8) == width
            &&& bytes::u32_at(order, block, 12) == height
            &&& bytes::u32_at(order, block, 16) == fourcc
        }),
{
    let b1 = bytes::patched(bytes::zeros(208), 0, bytes::u32_bytes(order, buf_type));
    let b2 = bytes::patched(b1, 8, bytes::u32_bytes(order, width));
    let b3 = bytes::patched(b2, 12, bytes::u32_bytes(order, height));
    bytes::read_gives_back_write(order, bytes::zeros(208), 0, buf_type);
    bytes::write_leaves_the_rest(order, b1, 8, width, 0);
    bytes::write_leaves_the_rest(order, b2, 12, height, 0);
    bytes::write_leaves_the_rest(order, b3, 16, fourcc, 0);
    bytes::read_gives_back_write(order, b1, 8, width);
    bytes::write_leaves_the_rest(order, b2, 12, height, 8);
    bytes::write_leaves_the_rest(order, b3, 16, fourcc, 8);
    bytes::read_gives_back_write(order, b2, 12, height);
    bytes::write_leaves_the_rest(order, b3, 16, fourcc, 12);
    bytes::read_gives_back_write(order, b3, 16, fourcc);
}

/// The text in a fixed-size field never holds a zero byte.
pub proof fn fixed_strings_end_at_nul(buf: Seq<u8>, i: int)
    requires
        0 <= i < until_nul(buf).len(),
    ensures
        until_nul(buf)[i] != 0,
        until_nul(buf).len() <= buf.len(),
    decreases buf.len(),
{
    if i > 0 {
        fixed_strings_end_at_nul(buf.skip(1), i - 1);
    } else {
        lemma_until_nul_len(buf);
    }
}

proof fn lemma_until_nul_len(buf: Seq<u8>)
    ensures
        until_nul(buf).len() <= buf.len(),
    decreases buf.len(),
{
    if buf.len() > 0 {
        lemma_until_nul_len(buf.skip(1));
    }
}

/// Every listed mode has a format of the device.
pub proof fn modes_come_from_formats(all: Seq<FormatModes>, n: nat, i: int)
    requires
        n <= all.len(),
        0 <= i < modes_of_formats(all, n).len(),
    ensures
        exists|f: int| 0 <= f < n && modes_of_formats(all, n)[i].format == (#[trigger] all[f]).format,
    decreases n,
{
    if n > 0 {
        let before = modes_of_formats(all, (n - 1) as nat);
        let f = all[n - 1];
        if i < before.len() {
            modes_come_from_formats(all, (n - 1) as nat, i);
            let k = choose|k: int| 0 <= k < n - 1 && before[i].format == (#[trigger] all[k]).format;
            assert(modes_of_formats(all, n)[i] == before[i]);
            assert(all[k].format == modes_of_formats(all, n)[i].format);
        } else {
            let j = i - before.len();
            lemma_size_modes_format(f.format, f.sizes@, f.sizes@.len(), j);
            assert(all[n - 1].format == modes_of_formats(all, n)[i].format);
        }
    }
}

proof fn lemma_size_modes_format(format: PixelFormat, sizes: Seq<SizeModes>, n: nat, i: int)
    requires
        0 <= i < modes_of_sizes(format, sizes, n).len(),
    ensures
        modes_of_sizes(format, sizes, n)[i].format == format,
    decreases n,
{
    if n > 0 {
        let before = modes_of_sizes(format, sizes, (n - 1) as nat);
        if i < before.len() {
            lemma_size_modes_format(format, sizes, (n - 1) as nat, i);
        }
    }
}

/// The text of a field is all that stands before its first zero byte: what is taken is a prefix, and
/// it ends at a zero byte or at the end of the field.
pub proof fn fixed_strings_are_prefixes(buf: Seq<u8>)
    ensures
        until_nul(buf).len() <= buf.len(),
        until_nul(buf) == buf.take(until_nul(buf).len() as int),
        until_nul(buf).len() < buf.len() ==> buf[until_nul(buf).len() as int] == 0,
    decreases buf.len(),
{
    if buf.len() > 0 && buf[0] != 0 {
        fixed_strings_are_prefixes(buf.skip(1));
        let rest = until_nul(buf.skip(1));
        assert(until_nul(buf) =~= buf.take(1 + rest.len() as int));
    } else {
        assert(until_nul(buf) =~= buf.take(0));
    }
}

/// The capabilities of the node count where the driver has set the highest bit of those of the
/// device, and those of the device count otherwise.
pub proof fn node_capabilities_come_first(order: ByteOrder, block: Seq<u8>)
    ensures
        bytes::u32_at(order, block, 84) >= 0x8000_0000 ==> effective_capabilities(order, block)
            == bytes::u32_at(order, block, 88),
        bytes::u32_at(order, block, 84) < 0x8000_0000 ==> effective_capabilities(order, block)
            == bytes::u32_at(order, block, 84),
{
    let c = bytes::u32_at(order, block, 84);
    assert((c & 0x8000_0000u32 != 0) == (c >= 0x8000_0000u32)) by (bit_vector);
}

/// A version is written with its major number first.
pub proof fn versions_are_written_major_first(major: u8, minor: u8, patch: u8)
    ensures
        version_text((major * 0x1_0000 + minor * 0x100 + patch) as u32) == text::decimal(
            major as nat,
        ) + "."@ + text::decimal(minor as nat) + "."@ + text::decimal(patch as nat),
{
    let v = (major * 0x1_0000 + minor * 0x100 + patch) as u32;
    assert(v / 0x1_0000 % 0x100 == major);
    assert(v / 0x100 % 0x100 == minor);
    assert(v % 0x100 == patch);
}

/// The question for a format names its index and the capture queue, and nothing else.
pub proof fn format_questions_name_the_index(order: ByteOrder, index: u32)
    ensures
        format_query(order, index).len() == 64,
        bytes::u32_at(order, format_query(order, index), 0) == index,
        bytes::u32_at(order, format_query(order, index), 4) == 1,
        forall|i: int| 8 <= i < 64 ==> #[trigger] format_query(order, index)[i] == 0,
{
    let b1 = bytes::patched(bytes::zeros(64), 0, bytes::u32_bytes(order, index));
    bytes::read_gives_back_write(order, bytes::zeros(64), 0, index);
    bytes::write_leaves_the_rest(order, b1, 4, 1, 0);
    bytes::read_gives_back_write(order, b1, 4, 1);
}

/// The question for a frame size names its index and the pixel format, and nothing else.
pub proof fn size_questions_name_the_format(order: ByteOrder, index: u32, fourcc: u32)
    ensures
        frame_size_query(order, index, fourcc).len() == 44,
        bytes::u32_at(order, frame_size_query(order, index, fourcc), 0) == index,
        bytes::u32_at(order, frame_size_query(order, index, fourcc), 4) == fourcc,
        forall|i: int| 8 <= i < 44 ==> #[trigger] frame_size_query(order, index, fourcc)[i] == 0,
{
    let b1 = bytes::patched(bytes::zeros(44), 0, bytes::u32_bytes(order, index));
    bytes::read_gives_back_write(order, bytes::zeros(44), 0, index);
    bytes::write_leaves_the_rest(order, b1, 4, fourcc, 0);
    bytes::read_gives_back_write(order, b1, 4, fourcc);
}

/// The question for a frame interval names its index, the pixel format, the width and the height.
pub proof fn interval_questions_name_the_size(
    order: ByteOrder,
    index: u32,
    fourcc: u32,
    width: u32,
    height: u32,
)
    ensures
        ({
            let q = frame_interval_query(order, index, fourcc, width, height);
            &&& q.len() == 52
            &&& bytes::u32_at(order, q, 0) == index
            &&& bytes::u32_at(order, q, 4) == fourcc
            &&& bytes::u32_at(order, q, 8) == width
            &&& bytes::u32_at(order, q, 12) == height
            &&& forall|i: int| 16 <= i < 52 ==> #[trigger] q[i] == 0
        }),
{
    let b0 = bytes::zeros(52);
    let b1 = bytes::patched(b0, 0, bytes::u32_bytes(order, index));
    let b2 = bytes::patched(b1, 4, bytes::u32_bytes(order, fourcc));
    let b3 = bytes::patched(b2, 8, bytes::u32_bytes(order, width));
    bytes::read_gives_back_write(order, b0, 0, index);
    bytes::write_leaves_the_rest(order, b1, 4, fourcc, 0);
    bytes::write_leaves_the_rest(order, b2, 8, width, 0);
    bytes::write_leaves_the_rest(order, b3, 12, height, 0);
    bytes::read_gives_back_write(order, b1, 4, fourcc);
    bytes::write_leaves_the_rest(order, b2, 8, width, 4);
    bytes::write_leaves_the_rest(order, b3, 12, height, 4);
    bytes::read_gives_back_write(order, b2, 8, width);
    bytes::write_leaves_the_rest(order, b3, 12, height, 8);
    bytes::read_gives_back_write(order, b3, 12, height);
}

/// The request for buffers names how many, the queue and that they are to be mapped.
pub proof fn buffer_requests_name_their_count(order: ByteOrder, count: u32, buf_type: u32)
    ensures
        ({
            let q = buffers_query(order, count, buf_type);
            &&& q.len() == 20
            &&& bytes::u32_at(order, q, 0) == count
            &&& bytes::u32_at(order, q, 4) == buf_type
            &&& bytes::u32_at(order, q, 8) == 1
            &&& forall|i: int| 12 <= i < 20 ==> #[trigger] q[i] == 0
        }),
{
    let b0 = bytes::zeros(20);
    let b1 = bytes::patched(b0, 0, bytes::u32_bytes(order, count));
    let b2 = bytes::patched(b1, 4, bytes::u32_bytes(order, buf_type));
    bytes::read_gives_back_write(order, b0, 0, count);
    bytes::write_leaves_the_rest(order, b1, 4, buf_type, 0);
    bytes::write_leaves_the_rest(order, b2, 8, 1, 0);
    bytes::read_gives_back_write(order, b1, 4, buf_type);
    bytes::write_leaves_the_rest(order, b2, 8, 1, 4);
    bytes::read_gives_back_write(order, b2, 8, 1);
}

/// The block of one buffer names its index, its queue and that it is mapped; all other bytes are
/// zero.
pub proof fn buffer_blocks_name_their_index(order: ByteOrder, index: u32, buf_type: u32)
    ensures
        ({
            let q = buffer_block(order, index, buf_type);
            &&& q.len() == 88
            &&& bytes::u32_at(order, q, 0) == index
            &&& bytes::u32_at(order, q, 4) == buf_type
            &&& bytes::u32_at(order, q, 60) == 1
            &&& forall|i: int| 8 <= i < 60 || 64 <= i < 88 ==> #[trigger] q[i] == 0
        }),
{
    let b0 = bytes::zeros(88);
    let b1 = bytes::patched(b0, 0, bytes::u32_bytes(order, index));
    let b2 = bytes::patched(b1, 4, bytes::u32_bytes(order, buf_type));
    bytes::read_gives_back_write(order, b0, 0, index);
    bytes::write_leaves_the_rest(order, b1, 4, buf_type, 0);
    bytes::write_leaves_the_rest(order, b2, 60, 1, 0);
    bytes::read_gives_back_write(order, b1, 4, buf_type);
    bytes::write_leaves_the_rest(order, b2, 60, 1, 4);
    bytes::read_gives_back_write(order, b2, 60, 1);
}

/// The question for the current format names the capture queue and nothing else, and the block that
/// sets a format is zero outside its four fields.
pub proof fn format_blocks_hold_nothing_else(
    order: ByteOrder,
    buf_type: u32,
    width: u32,
    height: u32,
    fourcc: u32,
    i: int,
)
    ensures
        format_readback(order).len() == 208,
        bytes::u32_at(order, format_readback(order), 0) == 1,
        4 <= i < 208 ==> format_readback(order)[i] == 0,
        format_block(order, buf_type, width, height, fourcc).len() == 208,
        4 <= i < 8 || 20 <= i < 208 ==> format_block(order, buf_type, width, height, fourcc)[i] == 0,
{
    bytes::read_gives_back_write(order, bytes::zeros(208), 0, 1);
}

/// The question for the next control names the last one, marked with the highest bit.
pub proof fn control_questions_go_on_from_the_last(order: ByteOrder, after: u32)
    requires
        after < 0x8000_0000,
    ensures
        next_control_query(order, after).len() == 68,
        bytes::u32_at(order, next_control_query(order, after), 0) == after + 0x8000_0000,
        forall|i: int| 4 <= i < 68 ==> #[trigger] next_control_query(order, after)[i] == 0,
{
    assert(after | 0x8000_0000u32 == after + 0x8000_0000u32) by (bit_vector)
        requires
            after < 0x8000_0000u32,
    ;
    bytes::read_gives_back_write(order, bytes::zeros(68), 0, after | 0x8000_0000u32);
}

/// The question for a menu item names the control and the index of the item.
pub proof fn item_questions_name_control_and_index(order: ByteOrder, id: u32, index: u32)
    ensures
        menu_item_query(order, id, index).len() == 68,
        bytes::u32_at(order, menu_item_query(order, id, index), 0) == id,
        bytes::u32_at(order, menu_item_query(order, id, index), 4) == index,
        forall|i: int| 8 <= i < 68 ==> #[trigger] menu_item_query(order, id, index)[i] == 0,
{
    let b1 = bytes::patched(bytes::zeros(68), 0, bytes::u32_bytes(order, id));
    bytes::read_gives_back_write(order, bytes::zeros(68), 0, id);
    bytes::write_leaves_the_rest(order, b1, 4, index, 0);
    bytes::read_gives_back_write(order, b1, 4, index);
}

/// The value that a control is set to differs from the wanted one by a multiple of 2 to the 32.
pub proof fn control_values_are_cut_to_32_bits(value: i64)
    ensures
        (value as int - low_half(value) as int) % 0x1_0000_0000 == 0,
{
}

/// The capture time is that of the seconds and microseconds in the block, rounded down to whole
/// milliseconds.
pub proof fn capture_times_count_milliseconds(order: ByteOrder, block: Seq<u8>)
    ensures
        ({
            let micros = bytes::i64_at(order, block, 24) * 1_000_000 + bytes::i64_at(
                order,
                block,
                32,
            );
            capture_millis(order, block) * 1000 <= micros < capture_millis(order, block) * 1000
                + 1000
        }),
{
}

/// A listed format has the index of its block, its flags, its name and its code.
pub proof fn listed_formats_are_as_described(
    d: FormatDescription,
    order: ByteOrder,
    index: int,
    block: Seq<u8>,
)
    requires
        describes(d, order, index, block),
    ensures
        d.index == index,
        d.flags == bytes::u32_at(order, block, 8),
        d.description@ == text_at(block, 12, 44),
        d.fourcc_raw == bytes::u32_at(order, block, 44),
        formats::fourcc_of(d.pixel_format) == bytes::u32_at(order, block, 44),
{
    formats::fourcc_round_trip(d.fourcc_raw);
}

/// Where all sizes that a device gives are discrete, each is listed with its own width and height,
/// in the order of the device.
pub proof fn discrete_sizes_are_listed(order: ByteOrder, blocks: Seq<[u8; 44]>)
    requires
        forall|i: int| 0 <= i < blocks.len() ==> bytes::u32_at(order, (#[trigger] blocks[i])@, 8) == 1,
    ensures
        frame_sizes_in(order, blocks).len() == blocks.len(),
        forall|i: int|
            0 <= i < blocks.len() ==> (#[trigger] frame_sizes_in(order, blocks)[i]).width
                == bytes::u32_at(order, blocks[i]@, 12) && frame_sizes_in(order, blocks)[i].height
                == bytes::u32_at(order, blocks[i]@, 16),
    decreases blocks.len(),
{
    if blocks.len() > 0 {
        let before = blocks.drop_last();
        assert forall|i: int| 0 <= i < before.len() implies bytes::u32_at(
            order,
            (#[trigger] before[i])@,
            8,
        ) == 1 by {
            assert(before[i] == blocks[i]);
        }
        discrete_sizes_are_listed(order, before);
        assert(blocks[blocks.len() - 1] == blocks.last());
        assert forall|i: int| 0 <= i < blocks.len() implies (#[trigger] frame_sizes_in(
            order,
            blocks,
        )[i]).width == bytes::u32_at(order, blocks[i]@, 12) && frame_sizes_in(
            order,
            blocks,
        )[i].height == bytes::u32_at(order, blocks[i]@, 16) by {
            if i < before.len() {
                assert(before[i] == blocks[i]);
                assert(frame_sizes_in(order, blocks)[i] == frame_sizes_in(order, before)[i]);
            }
        }
    }
}

/// A block that gives no discrete size adds nothing to the sizes before it.
pub proof fn other_sizes_are_left_out(order: ByteOrder, blocks: Seq<[u8; 44]>, block: [u8; 44])
    requires
        bytes::u32_at(order, block@, 8) != 1,
    ensures
        frame_sizes_in(order, blocks.push(block)) == frame_sizes_in(order, blocks),
{
    assert(blocks.push(block).drop_last() =~= blocks);
}

/// A discrete size is added at the end of the sizes before it.
pub proof fn sizes_are_added_in_order(order: ByteOrder, blocks: Seq<[u8; 44]>, block: [u8; 44])
    requires
        bytes::u32_at(order, block@, 8) == 1,
    ensures
        ({
            let r = frame_sizes_in(order, blocks.push(block));
            &&& r.drop_last() == frame_sizes_in(order, blocks)
            &&& r.last().width == bytes::u32_at(order, block@, 12)
            &&& r.last().height == bytes::u32_at(order, block@, 16)
        }),
{
    assert(blocks.push(block).drop_last() =~= blocks);
    assert(frame_sizes_in(order, blocks.push(block)).drop_last() =~= frame_sizes_in(order, blocks));
}

/// A discrete interval is added at the end of the intervals before it, with its own numerator and
/// denominator; another one is left out.
pub proof fn intervals_are_added_in_order(order: ByteOrder, blocks: Seq<[u8; 52]>, block: [u8; 52])
    ensures
        ({
            let r = frame_intervals_in(order, blocks.push(block));
            if bytes::u32_at(order, block@, 16) == 1 {
                &&& r.len() == frame_intervals_in(order, blocks).len() + 1
                &&& r.drop_last() == frame_intervals_in(order, blocks)
                &&& r.last().numerator == bytes::u32_at(order, block@, 20)
                &&& r.last().denominator == bytes::u32_at(order, block@, 24)
            } else {
                r == frame_intervals_in(order, blocks)
            }
        }),
{
    assert(blocks.push(block).drop_last() =~= blocks);
    assert(bytes::u32_at(order, block@, 16) == 1 ==> frame_intervals_in(
        order,
        blocks.push(block),
    ).drop_last() =~= frame_intervals_in(order, blocks));
}

/// How many intervals the first `n` sizes of a format have.
pub open spec fn intervals_before(sizes: Seq<SizeModes>, n: int) -> int
    decreases n,
{
    if n <= 0 {
        0
    } else {
        intervals_before(sizes, n - 1) + sizes[n - 1].intervals@.len()
    }
}

/// How many intervals the first `n` formats have, over all their sizes.
pub open spec fn offers_before(all: Seq<FormatModes>, n: int) -> int
    decreases n,
{
    if n <= 0 {
        0
    } else {
        offers_before(all, n - 1) + intervals_before(
            all[n - 1].sizes@,
            all[n - 1].sizes@.len() as int,
        )
    }
}

proof fn lemma_intervals_grow(sizes: Seq<SizeModes>, a: int, b: int)
    requires
        0 <= a <= b <= sizes.len(),
    ensures
        0 <= intervals_before(sizes, a) <= intervals_before(sizes, b),
    decreases b,
{
    if a < b {
        lemma_intervals_grow(sizes, a, b - 1);
    } else if a > 0 {
        lemma_intervals_grow(sizes, a - 1, a - 1);
    }
}

proof fn lemma_offers_grow(all: Seq<FormatModes>, a: int, b: int)
    requires
        0 <= a <= b <= all.len(),
    ensures
        0 <= offers_before(all, a) <= offers_before(all, b),
    decreases b,
{
    if b > 0 {
        let sizes = all[b - 1].sizes@;
        lemma_intervals_grow(sizes, 0, sizes.len() as int);
        if a < b {
            lemma_offers_grow(all, a, b - 1);
        } else {
            lemma_offers_grow(all, a - 1, b - 1);
        }
    }
}

proof fn lemma_modes_of_sizes(format: PixelFormat, sizes: Seq<SizeModes>, n: nat)
    requires
        n <= sizes.len(),
    ensures
        modes_of_sizes(format, sizes, n).len() == intervals_before(sizes, n as int),
    decreases n,
{
    if n > 0 {
        lemma_modes_of_sizes(format, sizes, (n - 1) as nat);
    }
}

proof fn lemma_mode_of_size(format: PixelFormat, sizes: Seq<SizeModes>, n: nat, s: int, v: int)
    requires
        n <= sizes.len(),
        0 <= s < n,
        0 <= v < sizes[s].intervals@.len(),
    ensures
        0 <= intervals_before(sizes, s) + v < modes_of_sizes(format, sizes, n).len(),
        modes_of_sizes(format, sizes, n)[intervals_before(sizes, s) + v] == (VideoMode {
            format,
            width: sizes[s].size.width,
            height: sizes[s].size.height,
            fps_numerator: sizes[s].intervals@[v].numerator,
            fps_denominator: sizes[s].intervals@[v].denominator,
        }),
    decreases n,
{
    lemma_modes_of_sizes(format, sizes, n);
    lemma_modes_of_sizes(format, sizes, (n - 1) as nat);
    lemma_intervals_grow(sizes, s, s);
    if s < n - 1 {
        lemma_mode_of_size(format, sizes, (n - 1) as nat, s, v);
    }
}

proof fn lemma_modes_len(all: Seq<FormatModes>, n: nat)
    requires
        n <= all.len(),
    ensures
        modes_of_formats(all, n).len() == offers_before(all, n as int),
    decreases n,
{
    if n > 0 {
        lemma_modes_len(all, (n - 1) as nat);
        let f = all[n - 1];
        lemma_modes_of_sizes(f.format, f.sizes@, f.sizes@.len());
    }
}

proof fn lemma_mode_at(all: Seq<FormatModes>, n: nat, f: int, s: int, v: int)
    requires
        n <= all.len(),
        0 <= f < n,
        0 <= s < all[f].sizes@.len(),
        0 <= v < all[f].sizes@[s].intervals@.len(),
    ensures
        ({
            let at = offers_before(all, f) + intervals_before(all[f].sizes@, s) + v;
            &&& 0 <= at < modes_of_formats(all, n).len()
            &&& modes_of_formats(all, n)[at] == (VideoMode {
                format: all[f].format,
                width: all[f].sizes@[s].size.width,
                height: all[f].sizes@[s].size.height,
                fps_numerator: all[f].sizes@[s].intervals@[v].numerator,
                fps_denominator: all[f].sizes@[s].intervals@[v].denominator,
            })
        }),
    decreases n,
{
    let last = all[n - 1];
    lemma_modes_len(all, n);
    lemma_modes_len(all, (n - 1) as nat);
    lemma_offers_grow(all, f, f);
    if f < n - 1 {
        lemma_mode_at(all, (n - 1) as nat, f, s, v);
    } else {
        lemma_mode_of_size(last.format, last.sizes@, last.sizes@.len(), s, v);
    }
}

/// Every interval of every size of every format has its mode: it has the format, the width, the
/// height and the interval that the device gives, and stands after the modes of all that the device
/// lists before.
pub proof fn every_offer_has_its_mode(all: Seq<FormatModes>, f: int, s: int, v: int)
    requires
        0 <= f < all.len(),
        0 <= s < all[f].sizes@.len(),
        0 <= v < all[f].sizes@[s].intervals@.len(),
    ensures
        ({
            let at = offers_before(all, f) + intervals_before(all[f].sizes@, s) + v;
            let modes = modes_of_formats(all, all.len());
            &&& 0 <= at < modes.len()
            &&& modes[at].format == all[f].format
            &&& modes[at].width == all[f].sizes@[s].size.width
            &&& modes[at].height == all[f].sizes@[s].size.height
            &&& modes[at].fps_numerator == all[f].sizes@[s].intervals@[v].numerator
            &&& modes[at].fps_denominator == all[f].sizes@[s].intervals@[v].denominator
        }),
{
    lemma_mode_at(all, all.len(), f, s, v);
}

proof fn lemma_which_size(sizes: Seq<SizeModes>, n: int, i: int) -> (r: (int, int))
    requires
        0 <= n <= sizes.len(),
        0 <= i < intervals_before(sizes, n),
    ensures
        0 <= r.0 < n,
        0 <= r.1 < sizes[r.0].intervals@.len(),
        i == intervals_before(sizes, r.0) + r.1,
    decreases n,
{
    if n <= 0 {
        (0, 0)
    } else if i < intervals_before(sizes, n - 1) {
        lemma_which_size(sizes, n - 1, i)
    } else {
        (n - 1, i - intervals_before(sizes, n - 1))
    }
}

proof fn lemma_which_format(all: Seq<FormatModes>, n: int, i: int) -> (r: (int, int, int))
    requires
        0 <= n <= all.len(),
        0 <= i < offers_before(all, n),
    ensures
        0 <= r.0 < n,
        0 <= r.1 < all[r.0].sizes@.len(),
        0 <= r.2 < all[r.0].sizes@[r.1].intervals@.len(),
        i == offers_before(all, r.0) + intervals_before(all[r.0].sizes@, r.1) + r.2,
    decreases n,
{
    if n <= 0 {
        (0, 0, 0)
    } else if i < offers_before(all, n - 1) {
        lemma_which_format(all, n - 1, i)
    } else {
        let sizes = all[n - 1].sizes@;
        let (s, v) = lemma_which_size(sizes, sizes.len() as int, i - offers_before(all, n - 1));
        (n - 1, s, v)
    }
}

/// Every listed mode is offered by the device: some format of it has a size with the width and the
/// height of the mode, and this size has its interval.
pub proof fn every_mode_is_offered(all: Seq<FormatModes>, i: int)
    requires
        0 <= i < modes_of_formats(all, all.len()).len(),
    ensures
        ({
            let mode = modes_of_formats(all, all.len())[i];
            exists|f: int, s: int, v: int|
                #![trigger all[f].sizes@[s].intervals@[v]]
                {
                    &&& 0 <= f < all.len() && 0 <= s < all[f].sizes@.len() && 0 <= v
                        < all[f].sizes@[s].intervals@.len()
                    &&& mode.format == all[f].format
                    &&& mode.width == all[f].sizes@[s].size.width
                    &&& mode.height == all[f].sizes@[s].size.height
                    &&& mode.fps_numerator == all[f].sizes@[s].intervals@[v].numerator
                    &&& mode.fps_denominator == all[f].sizes@[s].intervals@[v].denominator
                }
        }),
{
    lemma_modes_len(all, all.len());
    let (f, s, v) = lemma_which_format(all, all.len() as int, i);
    lemma_mode_at(all, all.len(), f, s, v);
    let offer = all[f].sizes@[s].intervals@[v];
    assert(modes_of_formats(all, all.len())[i].fps_numerator == offer.numerator);
}

/// There are as many modes as the device has intervals, over all sizes of all formats.
pub proof fn modes_are_as_many_as_offers(all: Seq<FormatModes>)
    ensures
        modes_of_formats(all, all.len()).len() == offers_before(all, all.len() as int),
{
    lemma_modes_len(all, all.len());
}

/// The answers about controls that are all usable, in the order in which the kernel gives them.
pub open spec fn usable_answers(device: Seq<ControlAnswers>) -> Seq<ControlReply>
    decreases device.len(),
{
    if device.len() == 0 {
        Seq::empty()
    } else {
        usable_answers(device.drop_last()) + (seq![
            ControlReply::Described(device.last().described),
            device.last().value,
        ] + device.last().items)
    }
}

/// Whether the kernel describes a control that can be used, by the bytes of its block: it is not
/// disabled and no heading; and whether it answers for each item of its menu, if it has one.
pub open spec fn is_usable_answer(order: ByteOrder, a: ControlAnswers) -> bool {
    let b = a.described@;
    let kind = bytes::u32_at(order, b, 4);
    &&& bytes::u32_at(order, b, 56) % 2 == 0
    &&& kind != 6
    &&& a.items.len() == if (kind == 3 || kind == 9) && bytes::u32_at(order, b, 40)
        <= bytes::u32_at(order, b, 44) {
        bytes::u32_at(order, b, 44) - bytes::u32_at(order, b, 40) + 1
    } else {
        0
    }
}

proof fn lemma_flag(flags: u32)
    ensures
        (flags & V4L2_CTRL_FLAG_DISABLED == 0) == (flags % 2 == 0),
{
    assert((flags & 1u32 == 0) == (flags % 2 == 0)) by (bit_vector);
}

proof fn lemma_usable_answers(order: ByteOrder, device: Seq<ControlAnswers>)
    requires
        forall|i: int| 0 <= i < device.len() ==> is_usable_answer(order, #[trigger] device[i]),
    ensures
        forall|i: int| 0 <= i < device.len() ==> answers_fit(order, #[trigger] device[i]),
        full_dialogue(order, device) == usable_answers(device),
        controls_of(order, device).len() == device.len(),
        forall|i: int|
            0 <= i < device.len() ==> #[trigger] controls_of(order, device)[i] == (ControlModel {
                info: info_in(order, device[i].described@),
                value: match device[i].value {
                    ControlReply::Read(block) => bytes::i32_at(order, block@, 4) as int,
                    _ => 0,
                },
                items: items_in(
                    info_in(order, device[i].described@).first_item,
                    device[i].items,
                ),
            }),
    decreases device.len(),
{
    assert forall|i: int| 0 <= i < device.len() implies answers_fit(order, #[trigger] device[i])
        && is_listed(info_in(order, device[i].described@)) by {
        assert(is_usable_answer(order, device[i]));
        let b = device[i].described@;
        lemma_flag(bytes::u32_at(order, b, 56));
        types::control_types_keep_their_numbers(bytes::u32_at(order, b, 4));
    }
    if device.len() > 0 {
        let before = device.drop_last();
        assert forall|i: int| 0 <= i < before.len() implies is_usable_answer(
            order,
            #[trigger] before[i],
        ) by {
            assert(before[i] == device[i]);
        }
        lemma_usable_answers(order, before);
        assert(device[device.len() - 1] == device.last());
        assert forall|i: int| 0 <= i < before.len() implies #[trigger] controls_of(
            order,
            device,
        )[i] == controls_of(order, before)[i] && before[i] == device[i] by {}
    }
}

/// A control is listed as the kernel describes it. Where all controls of a device can be used, the
/// list has one entry for each, in order, and every field of an entry is what the kernel wrote at
/// the place of this field in its `struct v4l2_queryctrl`, with the value that was read for it.
pub proof fn controls_are_listed_as_described(
    order: ByteOrder,
    device: Seq<ControlAnswers>,
    listed: Seq<ControlValue>,
    k: int,
)
    requires
        forall|i: int| 0 <= i < device.len() ==> is_usable_answer(order, #[trigger] device[i]),
        all_say(
            listed,
            after_replies(
                order,
                enumeration_start(),
                usable_answers(device).push(ControlReply::Refused),
            ).controls,
        ),
        0 <= k < device.len(),
    ensures
        listed.len() == device.len(),
        ({
            let b = device[k].described@;
            let c = listed[k];
            &&& c.id == bytes::u32_at(order, b, 0)
            &&& types::control_type_number(c.control_type) == bytes::u32_at(order, b, 4)
            &&& c.name@ == text_at(b, 8, 40)
            &&& c.minimum == bytes::i32_at(order, b, 40)
            &&& c.maximum == bytes::i32_at(order, b, 44)
            &&& c.step == bytes::i32_at(order, b, 48)
            &&& c.default == bytes::i32_at(order, b, 52)
            &&& c.flags == bytes::u32_at(order, b, 56)
            &&& match device[k].value {
                ControlReply::Read(read) => c.value == bytes::i32_at(order, read@, 4),
                _ => c.value == 0,
            }
        }),
{
    lemma_usable_answers(order, device);
    enumeration_lists_the_device(order, device);
    let m = controls_of(order, device);
    assert(says(listed[k], m[k]));
    types::control_types_keep_their_numbers(bytes::u32_at(order, device[k].described@, 4));
}

/// Where the kernel knows every item of a menu, the items are listed with consecutive indices, from
/// the minimum of the control on, each with the name that the kernel gave for it.
pub proof fn menus_are_listed_in_full(
    order: ByteOrder,
    device: Seq<ControlAnswers>,
    listed: Seq<ControlValue>,
    k: int,
    blocks: Seq<[u8; 68]>,
    j: int,
)
    requires
        forall|i: int| 0 <= i < device.len() ==> is_usable_answer(order, #[trigger] device[i]),
        all_say(
            listed,
            after_replies(
                order,
                enumeration_start(),
                usable_answers(device).push(ControlReply::Refused),
            ).controls,
        ),
        0 <= k < device.len(),
        device[k].items == blocks.map_values(|b: [u8; 68]| ControlReply::Described(b)),
        0 <= j < blocks.len(),
    ensures
        listed[k].menu_items@.len() == blocks.len(),
        listed[k].menu_items@[j].index == bytes::u32_at(order, device[k].described@, 40) + j,
        listed[k].menu_items@[j].name@ == text_at(blocks[j]@, 8, 40),
{
    lemma_usable_answers(order, device);
    enumeration_lists_the_device(order, device);
    let m = controls_of(order, device);
    assert(says(listed[k], m[k]));
    let first = bytes::u32_at(order, device[k].described@, 40);
    lemma_items(first, blocks, j);
    assert(is_usable_answer(order, device[k]));
    let items = items_in(first, device[k].items);
    assert(item_models(listed[k].menu_items@) == items);
    assert(item_models(listed[k].menu_items@)[j] == listed[k].menu_items@[j]@);
}

proof fn lemma_items(first: u32, blocks: Seq<[u8; 68]>, j: int)
    requires
        0 <= j < blocks.len(),
        first + blocks.len() <= u32::MAX + 1,
    ensures
        ({
            let items = items_in(first, blocks.map_values(|b: [u8; 68]| ControlReply::Described(b)));
            &&& items.len() == blocks.len()
            &&& items[j].index == first + j
            &&& items[j].name == text_at(blocks[j]@, 8, 40)
        }),
    decreases blocks.len(),
{
    let all = blocks.map_values(|b: [u8; 68]| ControlReply::Described(b));
    let before = blocks.drop_last();
    let earlier = before.map_values(|b: [u8; 68]| ControlReply::Described(b));
    assert(all.drop_last() =~= earlier);
    assert(all.last() == ControlReply::Described(blocks.last()));
    let items = items_in(first, all);
    assert(items == items_in(first, earlier).push(
        ItemModel {
            index: (first + all.len() - 1) as u32,
            name: text_at(blocks.last()@, 8, 40),
        },
    ));
    if j < before.len() {
        lemma_items(first, before, j);
    } else if before.len() > 0 {
        lemma_items(first, before, 0);
    } else {
        assert(earlier.len() == 0);
        assert(items_in(first, earlier).len() == 0);
    }
}

/// A control that is disabled, or the heading of a class, is passed over: nothing is listed, and the
/// enumeration goes on after it.
pub proof fn unusable_controls_are_passed_over(
    order: ByteOrder,
    m: EnumerationModel,
    block: [u8; 68],
)
    requires
        m.phase is Control,
        bytes::u32_at(order, block@, 56) % 2 == 1 || bytes::u32_at(order, block@, 4) == 6,
    ensures
        ({
            let next = after_reply(order, m, ControlReply::Described(block));
            &&& next.controls == m.controls
            &&& next.phase is Control
            &&& next.last_id == bytes::u32_at(order, block@, 0)
        }),
{
    lemma_flag(bytes::u32_at(order, block@, 56));
    types::control_types_keep_their_numbers(bytes::u32_at(order, block@, 4));
}

/// The enumeration asks for the control that comes after the one it was told of last.
pub proof fn enumeration_remembers_the_last_control(
    order: ByteOrder,
    m: EnumerationModel,
    reply: ControlReply,
)
    ensures
        match reply {
            ControlReply::Described(block) if m.phase is Control => after_reply(
                order,
                m,
                reply,
            ).last_id == bytes::u32_at(order, block@, 0),
            _ => after_reply(order, m, reply).last_id == m.last_id,
        },
{
}

/// Every common name of a control has the id that V4L2 gives this control.
pub proof fn common_names_have_their_ids()
    ensures
        named_id("brightness"@) == Some(0x00980900u32),
        named_id("contrast"@) == Some(0x00980901u32),
        named_id("saturation"@) == Some(0x00980902u32),
        named_id("sharpness"@) == Some(0x0098091Bu32),
        named_id("exposure_auto"@) == Some(0x009A0901u32),
        named_id("auto_exposure"@) == Some(0x009A0901u32),
        named_id("exposure_absolute"@) == Some(0x009A0902u32),
        named_id("exposure_time_absolute"@) == Some(0x009A0902u32),
        named_id("exposure"@) == Some(0x009A0902u32),
        named_id("zoom_absolute"@) == Some(0x009A090Du32),
        named_id("zoom"@) == Some(0x009A090Du32),
        named_id("pan_absolute"@) == Some(0x009A0908u32),
        named_id("pan"@) == Some(0x009A0908u32),
        named_id("tilt_absolute"@) == Some(0x009A0909u32),
        named_id("tilt"@) == Some(0x009A0909u32),
        named_id("white_balance_temperature_auto"@) == Some(0x0098090Cu32),
        named_id("auto_white_balance"@) == Some(0x0098090Cu32),
        named_id("white_balance_auto"@) == Some(0x0098090Cu32),
        named_id("white_balance_automatic"@) == Some(0x0098090Cu32),
        named_id("white_balance_temperature"@) == Some(0x0098091Au32),
        named_id("power_line_frequency"@) == Some(0x00980918u32),
        named_id("anti_flicker"@) == Some(0x00980918u32),
        named_id("gain"@) == Some(0x00980913u32),
{
    reveal_strlit("brightness");
    assert("brightness"@.len() == 10);
    reveal_strlit("contrast");
    assert("contrast"@.len() == 8);
    reveal_strlit("saturation");
    assert("saturation"@.len() == 10);
    reveal_strlit("sharpness");
    assert("sharpness"@.len() == 9);
    reveal_strlit("exposure_auto");
    assert("exposure_auto"@.len() == 13);
    reveal_strlit("auto_exposure");
    assert("auto_exposure"@.len() == 13);
    reveal_strlit("exposure_absolute");
    assert("exposure_absolute"@.len() == 17);
    reveal_strlit("exposure_time_absolute");
    assert("exposure_time_absolute"@.len() == 22);
    reveal_strlit("exposure");
    assert("exposure"@.len() == 8);
    reveal_strlit("zoom_absolute");
    assert("zoom_absolute"@.len() == 13);
    reveal_strlit("zoom");
    assert("zoom"@.len() == 4);
    reveal_strlit("pan_absolute");
    assert("pan_absolute"@.len() == 12);
    reveal_strlit("pan");
    assert("pan"@.len() == 3);
    reveal_strlit("tilt_absolute");
    assert("tilt_absolute"@.len() == 13);
    reveal_strlit("tilt");
    assert("tilt"@.len() == 4);
    reveal_strlit("white_balance_temperature_auto");
    assert("white_balance_temperature_auto"@.len() == 30);
    reveal_strlit("auto_white_balance");
    assert("auto_white_balance"@.len() == 18);
    reveal_strlit("white_balance_auto");
    assert("white_balance_auto"@.len() == 18);
    reveal_strlit("white_balance_automatic");
    assert("white_balance_automatic"@.len() == 23);
    reveal_strlit("white_balance_temperature");
    assert("white_balance_temperature"@.len() == 25);
    reveal_strlit("power_line_frequency");
    assert("power_line_frequency"@.len() == 20);
    reveal_strlit("anti_flicker");
    assert("anti_flicker"@.len() == 12);
    reveal_strlit("gain");
    assert("gain"@.len() == 4);
    assert("saturation"@[0] == 's' && "brightness"@[0] == 'b');
    assert("exposure"@[0] == 'e' && "contrast"@[0] == 'c');
    assert("zoom_absolute"@[0] == 'z' && "exposure_auto"@[0] == 'e');
    assert("zoom_absolute"@[0] == 'z' && "auto_exposure"@[0] == 'a');
    assert("tilt_absolute"@[0] == 't' && "exposure_auto"@[0] == 'e');
    assert("tilt_absolute"@[0] == 't' && "auto_exposure"@[0] == 'a');
    assert("tilt_absolute"@[0] == 't' && "zoom_absolute"@[0] == 'z');
    assert("tilt"@[0] == 't' && "zoom"@[0] == 'z');
    assert("anti_flicker"@[0] == 'a' && "pan_absolute"@[0] == 'p');
    assert("gain"@[0] == 'g' && "zoom"@[0] == 'z');
    assert("gain"@[0] == 'g' && "tilt"@[0] == 't');
    lemma_lower_case_stays("brightness"@);
    lemma_lower_case_stays("contrast"@);
    lemma_lower_case_stays("saturation"@);
    lemma_lower_case_stays("sharpness"@);
    lemma_lower_case_stays("exposure_auto"@);
    lemma_lower_case_stays("auto_exposure"@);
    lemma_lower_case_stays("exposure_absolute"@);
    lemma_lower_case_stays("exposure_time_absolute"@);
    lemma_lower_case_stays("exposure"@);
    lemma_lower_case_stays("zoom_absolute"@);
    lemma_lower_case_stays("zoom"@);
    lemma_lower_case_stays("pan_absolute"@);
    lemma_lower_case_stays("pan"@);
    lemma_lower_case_stays("tilt_absolute"@);
    lemma_lower_case_stays("tilt"@);
    lemma_lower_case_stays("white_balance_temperature_auto"@);
    lemma_lower_case_stays("auto_white_balance"@);
    lemma_lower_case_stays("white_balance_auto"@);
    lemma_lower_case_stays("white_balance_automatic"@);
    lemma_lower_case_stays("white_balance_temperature"@);
    lemma_lower_case_stays("power_line_frequency"@);
    lemma_lower_case_stays("anti_flicker"@);
    lemma_lower_case_stays("gain"@);
}

/// Upper case does not matter in the name of a control.
pub proof fn case_does_not_matter(name: Seq<char>, other: Seq<char>)
    requires
        is_ascii_chars(name),
        is_ascii_chars(other),
        name.len() == other.len(),
        forall|i: int|
            0 <= i < name.len() ==> #[trigger] name[i] == other[i] || ('A' <= name[i] <= 'Z' && other[i]
                as u32 == name[i] as u32 + 32),
    ensures
        named_id(name) == named_id(other),
{
    assert(name.map_values(|c: char| text::ascii_lower(c)) =~= other.map_values(
        |c: char| text::ascii_lower(c),
    ));
}

/// The number of a V4L2 call: the directions in which its block travels (1 to the kernel, 2 back), the
/// size of the block, the letter of V4L2 and the number of the call.
pub open spec fn call_number(directions: int, size: int, call: int) -> int {
    directions * 0x4000_0000 + size * 0x1_0000 + 0x5600 + call
}

/// Every call has the number that belongs to its directions and to the size of the block that is
/// handed over.
pub proof fn call_numbers_fit_their_blocks()
    ensures
        VIDIOC_QUERYCAP == call_number(2, 104, 0),
        VIDIOC_ENUM_FMT == call_number(3, 64, 2),
        VIDIOC_G_FMT == call_number(3, 208, 4),
        VIDIOC_S_FMT == call_number(3, 208, 5),
        VIDIOC_REQBUFS == call_number(3, 20, 8),
        VIDIOC_QUERYBUF == call_number(3, 88, 9),
        VIDIOC_QBUF == call_number(3, 88, 15),
        VIDIOC_DQBUF == call_number(3, 88, 17),
        VIDIOC_STREAMON == call_number(1, 4, 18),
        VIDIOC_STREAMOFF == call_number(1, 4, 19),
        VIDIOC_G_CTRL == call_number(3, 8, 27),
        VIDIOC_S_CTRL == call_number(3, 8, 28),
        VIDIOC_QUERYCTRL == call_number(3, 68, 36),
        VIDIOC_QUERYMENU == call_number(3, 68, 37),
        VIDIOC_ENUM_FRAMESIZES == call_number(3, 44, 74),
        VIDIOC_ENUM_FRAMEINTERVALS == call_number(3, 52, 75),
{
}

/// What is read of a control is what the kernel wrote, each field at its place. The first and the last
/// item of a menu are the bounds of its value, without their sign.
pub proof fn descriptions_are_read_field_by_field(
    order: ByteOrder,
    info: ControlInfo,
    block: Seq<u8>,
)
    requires
        info@ == info_in(order, block),
    ensures
        info.id == bytes::u32_at(order, block, 0),
        types::control_type_number(info.control_type) == bytes::u32_at(order, block, 4),
        info.name@ == text_at(block, 8, 40),
        info.minimum == bytes::i32_at(order, block, 40),
        info.maximum == bytes::i32_at(order, block, 44),
        info.step == bytes::i32_at(order, block, 48),
        info.default == bytes::i32_at(order, block, 52),
        info.flags == bytes::u32_at(order, block, 56),
        info.first_item == bytes::u32_at(order, block, 40),
        info.last_item == bytes::u32_at(order, block, 44),
{
    types::control_types_keep_their_numbers(bytes::u32_at(order, block, 4));
}

/// A capability is one bit of the capabilities: capturing is bit 0, output bit 1, reading and writing
/// bit 24, and streaming bit 26.
pub proof fn capabilities_are_bits(capabilities: u32)
    ensures
        capabilities & V4L2_CAP_VIDEO_CAPTURE != 0 <==> capabilities % 2 == 1,
        capabilities & V4L2_CAP_VIDEO_OUTPUT != 0 <==> capabilities / 2 % 2 == 1,
        capabilities & V4L2_CAP_READWRITE != 0 <==> capabilities / 0x100_0000 % 2 == 1,
        capabilities & V4L2_CAP_STREAMING != 0 <==> capabilities / 0x400_0000 % 2 == 1,
{
    assert((capabilities & 1 != 0) == (capabilities % 2 == 1) && (capabilities & 2 != 0) == (
    capabilities / 2 % 2 == 1) && (capabilities & 0x100_0000 != 0) == (capabilities / 0x100_0000 % 2
        == 1) && (capabilities & 0x400_0000 != 0) == (capabilities / 0x400_0000 % 2 == 1))
        by (bit_vector);
}

/// A capture time can be given where it is not before its start and fits in 64 bits.
pub proof fn times_that_fit_are_given(order: ByteOrder, block: Seq<u8>)
    ensures
        capture_time_fits(order, block) <==> bytes::i64_at(order, block, 24) >= 0 && 0
            <= capture_millis(order, block) <= 0xffff_ffff_ffff_ffff,
{
}

/// No other name has an id.
pub proof fn other_names_have_no_id(name: Seq<char>)
    requires
        control_id(name) is Some,
    ensures
        seq![
            "anti_flicker"@,
            "auto_exposure"@,
            "auto_white_balance"@,
            "brightness"@,
            "contrast"@,
            "exposure"@,
            "exposure_absolute"@,
            "exposure_auto"@,
            "exposure_time_absolute"@,
            "gain"@,
            "pan"@,
            "pan_absolute"@,
            "power_line_frequency"@,
            "saturation"@,
            "sharpness"@,
            "tilt"@,
            "tilt_absolute"@,
            "white_balance_auto"@,
            "white_balance_automatic"@,
            "white_balance_temperature"@,
            "white_balance_temperature_auto"@,
            "zoom"@,
            "zoom_absolute"@,
        ].contains(name),
{
    let names = seq![
        "anti_flicker"@,
        "auto_exposure"@,
        "auto_white_balance"@,
        "brightness"@,
        "contrast"@,
        "exposure"@,
        "exposure_absolute"@,
        "exposure_auto"@,
        "exposure_time_absolute"@,
        "gain"@,
        "pan"@,
        "pan_absolute"@,
        "power_line_frequency"@,
        "saturation"@,
        "sharpness"@,
        "tilt"@,
        "tilt_absolute"@,
        "white_balance_auto"@,
        "white_balance_automatic"@,
        "white_balance_temperature"@,
        "white_balance_temperature_auto"@,
        "zoom"@,
        "zoom_absolute"@,
    ];
    assert(names[0] == "anti_flicker"@);
    assert(names[1] == "auto_exposure"@);
    assert(names[2] == "auto_white_balance"@);
    assert(names[3] == "brightness"@);
    assert(names[4] == "contrast"@);
    assert(names[5] == "exposure"@);
    assert(names[6] == "exposure_absolute"@);
    assert(names[7] == "exposure_auto"@);
    assert(names[8] == "exposure_time_absolute"@);
    assert(names[9] == "gain"@);
    assert(names[10] == "pan"@);
    assert(names[11] == "pan_absolute"@);
    assert(names[12] == "power_line_frequency"@);
    assert(names[13] == "saturation"@);
    assert(names[14] == "sharpness"@);
    assert(names[15] == "tilt"@);
    assert(names[16] == "tilt_absolute"@);
    assert(names[17] == "white_balance_auto"@);
    assert(names[18] == "white_balance_automatic"@);
    assert(names[19] == "white_balance_temperature"@);
    assert(names[20] == "white_balance_temperature_auto"@);
    assert(names[21] == "zoom"@);
    assert(names[22] == "zoom_absolute"@);
}

/// An item of a menu keeps its index and its name.
pub proof fn items_keep_index_and_name(item: MenuItem, items: Seq<MenuItem>, i: int)
    requires
        0 <= i < items.len(),
    ensures
        item@.index == item.index && item@.name == item.name@,
        item_models(items).len() == items.len() && item_models(items)[i] == items[i]@,
{
}

/// A source gets its format on the queue for capturing, which is the first, and a sink on the queue
/// for output, which is the second; the format of a source is read back from the first as well.
pub proof fn formats_go_to_their_queue(order: ByteOrder, width: u32, height: u32, fourcc: u32)
    ensures
        bytes::u32_at(
            order,
            format_block(order, V4L2_BUF_TYPE_VIDEO_CAPTURE, width, height, fourcc),
            0,
        ) == 1,
        bytes::u32_at(
            order,
            format_block(order, V4L2_BUF_TYPE_VIDEO_OUTPUT, width, height, fourcc),
            0,
        ) == 2,
        bytes::u32_at(order, format_readback(order), 0) == 1,
{
    format_block_round_trip(order, V4L2_BUF_TYPE_VIDEO_CAPTURE, width, height, fourcc);
    format_block_round_trip(order, V4L2_BUF_TYPE_VIDEO_OUTPUT, width, height, fourcc);
    bytes::read_gives_back_write(order, bytes::zeros(208), 0, 1);
}

} // verus!
