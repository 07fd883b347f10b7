//! The memory-mapped capture of the live view.
//!
//! In contrast to a session of the daemon, the live view maps all buffers before it enqueues the
//! first one, keeps its buffers when the stream is restarted, and looks for the start of the JPEG
//! data in what it dequeues.

use crate::bytes::{self, ByteOrder};
use crate::capture::{self, BufferCall, BufferReply};
use crate::text::{self, push_decimal};
use crate::v4l2;
use vstd::prelude::*;
use vstd::slice::*;
use vstd::string::*;

verus! {

/// Why the buffers could not be set up.
#[derive(Debug, Clone)]
pub enum SetupError {
    /// A call failed; the operating system's words.
    Call(String),
    /// The kernel granted fewer than two buffers.
    TooFewBuffers(u32),
    /// The buffer with this index could not be mapped.
    NotMapped(u32),
}

/// The message of an error of the set-up.
pub open spec fn setup_error_text(error: SetupError) -> Seq<char> {
    match error {
        SetupError::Call(words) => words@,
        SetupError::TooFewBuffers(n) => "Need at least 2 buffers, got "@ + text::decimal(n as nat),
        SetupError::NotMapped(i) => "mmap failed for buffer "@ + text::decimal(i as nat),
    }
}

impl SetupError {
    /// The message of the error.
    pub fn to_text(&self) -> (r: String)
        ensures
            r@ == setup_error_text(*self),
    {
        match self {
            SetupError::Call(words) => words.clone(),
            SetupError::TooFewBuffers(n) => {
                let mut out = "Need at least 2 buffers, got ".to_owned();
                push_decimal(&mut out, *n as u64);
                out
            },
            SetupError::NotMapped(i) => {
                let mut out = "mmap failed for buffer ".to_owned();
                push_decimal(&mut out, *i as u64);
                out
            },
        }
    }
}

/// What a capture is doing.
#[derive(Debug, Clone)]
pub enum MmapPhase {
    /// This many buffers are to be requested.
    Request(u32),
    /// The buffer with this index is to be queried.
    Query(u32),
    /// The buffer with this index is to be mapped.
    MapBuffer { index: u32, length: u32, offset: u32 },
    /// The buffer with this index is to be enqueued.
    Queue(u32),
    /// The buffers are set up, and nothing is pending.
    Ready,
    /// The stream is to be started.
    Starting,
    /// The stream is to be stopped, for a restart.
    RestartOff,
    /// The buffer with this index is to be enqueued, for a restart.
    RestartQueue(u32),
    /// The stream is to be started again.
    RestartOn,
    /// A start or a restart failed; the operating system's words.
    CallFailed(String),
    /// The buffers could not be set up.
    SetupFailed(SetupError),
}

/// A memory-mapped capture.
#[derive(Debug, Clone)]
pub struct MmapCapture {
    pub order: ByteOrder,
    /// How many buffers the kernel granted.
    pub granted: u32,
    /// The lengths of the mapped buffers.
    pub lengths: Vec<u32>,
    pub streaming: bool,
    pub phase: MmapPhase,
}

/// A capture, with the lengths of its buffers as a sequence.
pub ghost struct MmapModel {
    pub order: ByteOrder,
    pub granted: u32,
    pub lengths: Seq<u32>,
    pub streaming: bool,
    pub phase: MmapPhase,
}

impl View for MmapCapture {
    type V = MmapModel;

    open spec fn view(&self) -> MmapModel {
        MmapModel {
            order: self.order,
            granted: self.granted,
            lengths: self.lengths@,
            streaming: self.streaming,
            phase: self.phase,
        }
    }
}

/// A capture that has not asked for anything yet.
pub open spec fn mmap_start(order: ByteOrder, num_buffers: u32) -> MmapModel {
    MmapModel {
        order,
        granted: 0,
        lengths: Seq::empty(),
        streaming: false,
        phase: MmapPhase::Request(num_buffers),
    }
}

/// The next buffer to enqueue for a restart, or the start of the stream where none is left.
pub open spec fn restart_from(m: MmapModel, index: int) -> MmapPhase {
    if index < m.lengths.len() {
        MmapPhase::RestartQueue(index as u32)
    } else {
        MmapPhase::RestartOn
    }
}

/// The capture after the pending call has returned. A call that failed ends what was going on,
/// except that the end of a stream is taken as it comes; any other answer that does not belong to
/// the pending call changes nothing.
pub open spec fn after_reply(m: MmapModel, reply: BufferReply) -> MmapModel {
    match m.phase {
        MmapPhase::Request(_) => match reply {
            BufferReply::Granted(block) => {
                let granted = bytes::u32_at(m.order, block@, 0);
                MmapModel {
                    granted,
                    phase: if granted < 2 {
                        MmapPhase::SetupFailed(SetupError::TooFewBuffers(granted))
                    } else {
                        MmapPhase::Query(0)
                    },
                    ..m
                }
            },
            BufferReply::Failed(words) => MmapModel {
                phase: MmapPhase::SetupFailed(SetupError::Call(words)),
                ..m
            },
            _ => m,
        },
        MmapPhase::Query(index) => match reply {
            BufferReply::Described(block) => MmapModel {
                phase: MmapPhase::MapBuffer {
                    index,
                    length: bytes::u32_at(m.order, block@, 72),
                    offset: bytes::u32_at(m.order, block@, 64),
                },
                ..m
            },
            BufferReply::Failed(words) => MmapModel {
                phase: MmapPhase::SetupFailed(SetupError::Call(words)),
                ..m
            },
            _ => m,
        },
        MmapPhase::MapBuffer { index, length, .. } => match reply {
            BufferReply::Done => MmapModel {
                lengths: m.lengths.push(length),
                phase: if index + 1 < m.granted {
                    MmapPhase::Query((index + 1) as u32)
                } else {
                    MmapPhase::Queue(0)
                },
                ..m
            },
            BufferReply::Failed(_) => MmapModel {
                phase: MmapPhase::SetupFailed(SetupError::NotMapped(index)),
                ..m
            },
            _ => m,
        },
        MmapPhase::Queue(index) => match reply {
            BufferReply::Done => MmapModel {
                phase: if index + 1 < m.granted {
                    MmapPhase::Queue((index + 1) as u32)
                } else {
                    MmapPhase::Ready
                },
                ..m
            },
            BufferReply::Failed(words) => MmapModel {
                phase: MmapPhase::SetupFailed(SetupError::Call(words)),
                ..m
            },
            _ => m,
        },
        MmapPhase::Starting | MmapPhase::RestartOn => match reply {
            BufferReply::Done => MmapModel { streaming: true, phase: MmapPhase::Ready, ..m },
            BufferReply::Failed(words) => MmapModel { phase: MmapPhase::CallFailed(words), ..m },
            _ => m,
        },
        MmapPhase::RestartOff => MmapModel { streaming: false, phase: restart_from(m, 0), ..m },
        MmapPhase::RestartQueue(index) => match reply {
            BufferReply::Done => MmapModel { phase: restart_from(m, index + 1), ..m },
            BufferReply::Failed(words) => MmapModel { phase: MmapPhase::CallFailed(words), ..m },
            _ => m,
        },
        _ => m,
    }
}

/// The call that a capture waits for.
pub open spec fn pending_call(m: MmapModel) -> Option<capture::CallModel> {
    let queue = v4l2::V4L2_BUF_TYPE_VIDEO_CAPTURE;
    match m.phase {
        MmapPhase::Request(count) => Some(
            capture::CallModel::RequestBuffers(v4l2::buffers_query(m.order, count, queue)),
        ),
        MmapPhase::Query(index) => Some(
            capture::CallModel::QueryBuffer(v4l2::buffer_block(m.order, index, queue)),
        ),
        MmapPhase::MapBuffer { length, offset, .. } => Some(capture::CallModel::MapBuffer { length, offset }),
        MmapPhase::Queue(index) | MmapPhase::RestartQueue(index) => Some(
            capture::CallModel::QueueBuffer(v4l2::buffer_block(m.order, index, queue)),
        ),
        MmapPhase::Starting | MmapPhase::RestartOn => Some(
            capture::CallModel::StreamOn(bytes::u32_bytes(m.order, queue)),
        ),
        MmapPhase::RestartOff => Some(capture::CallModel::StreamOff(bytes::u32_bytes(m.order, queue))),
        _ => None,
    }
}

/// Whether a start or a restart can begin: the buffers are set up and nothing is pending.
pub open spec fn is_idle(m: MmapModel) -> bool {
    m.phase is Ready || m.phase is CallFailed
}

/// The position of the first JPEG start marker in a frame, or 0 where there is none.
pub open spec fn jpeg_start(data: Seq<u8>) -> int {
    if has_marker(data) {
        marker_from(data, 0)
    } else {
        0
    }
}

/// Whether a JPEG start marker stands at a position.
pub open spec fn marker_at(data: Seq<u8>, i: int) -> bool {
    0 <= i && i + 1 < data.len() && data[i] == 0xFF && data[i + 1] == 0xD8
}

/// Whether a frame holds a JPEG start marker.
pub open spec fn has_marker(data: Seq<u8>) -> bool {
    exists|i: int| marker_at(data, i)
}

/// The first position from `from` on at which a JPEG start marker stands.
pub open spec fn marker_from(data: Seq<u8>, from: int) -> int
    decreases data.len() - from,
{
    if from >= data.len() || marker_at(data, from) {
        from
    } else {
        marker_from(data, from + 1)
    }
}

/// The part of a dequeued frame that starts at its first JPEG start marker, or all of it where
/// there is none. Some devices put padding or metadata before the JPEG data.
pub fn jpeg_data(data: &[u8]) -> (r: &[u8])
    ensures
        r@ == data@.skip(jpeg_start(data@)),
{
    let mut i: usize = 0;
    while i < data.len()
        invariant
            i <= data@.len(),
            marker_from(data@, 0) == marker_from(data@, i as int),
            forall|j: int| 0 <= j < i ==> !marker_at(data@, j),
        decreases data@.len() - i,
    {
        if data[i] == 0xFF && i + 1 < data.len() && data[i + 1] == 0xD8 {
            proof {
                assert(marker_at(data@, i as int));
                assert(data@.subrange(i as int, data@.len() as int) =~= data@.skip(i as int));
            }
            return slice_subrange(data, i, data.len());
        }
        i += 1;
    }
    proof {
        assert(!has_marker(data@));
        assert(data@.skip(0) =~= data@);
    }
    data
}

/// How many bytes of a buffer hold the frame: as many as the driver says, or all of them where it
/// says none or more than there are.
pub open spec fn frame_extent(used: u32, length: u32) -> u32 {
    if 0 < used <= length {
        used
    } else {
        length
    }
}

/// The message where a dequeued block names no buffer.
pub open spec fn out_of_range_text(index: u32, have: nat) -> Seq<char> {
    "buffer index "@ + text::decimal(index as nat) + " out of range (have "@ + text::decimal(have)
        + ")"@
}

impl MmapCapture {
    /// Set up MMAP capture with `num_buffers` kernel buffers
    pub fn new(order: ByteOrder, num_buffers: u32) -> (r: Self)
        ensures
            r@ == mmap_start(order, num_buffers),
    {
        let r = MmapCapture {
            order,
            granted: 0,
            lengths: Vec::new(),
            streaming: false,
            phase: MmapPhase::Request(num_buffers),
        };
        proof {
            assert(r.lengths@ =~= Seq::empty());
        }
        r
    }

    /// The call that is to be made next, if any is pending.
    pub fn call(&self) -> (r: Option<BufferCall>)
        ensures
            capture::call_view(r) == pending_call(self@),
            match self.phase {
                MmapPhase::Request(count) => r matches Some(BufferCall::RequestBuffers(b)) && b@
                    == v4l2::buffers_query(self.order, count, v4l2::V4L2_BUF_TYPE_VIDEO_CAPTURE),
                MmapPhase::Query(index) => r matches Some(BufferCall::QueryBuffer(b)) && b@
                    == v4l2::buffer_block(self.order, index, v4l2::V4L2_BUF_TYPE_VIDEO_CAPTURE),
                MmapPhase::MapBuffer { length, offset, .. } => r == Some(
                    BufferCall::MapBuffer { length, offset },
                ),
                MmapPhase::Queue(index) | MmapPhase::RestartQueue(index) => r matches Some(
                    BufferCall::QueueBuffer(b),
                ) && b@ == v4l2::buffer_block(
                    self.order,
                    index,
                    v4l2::V4L2_BUF_TYPE_VIDEO_CAPTURE,
                ),
                MmapPhase::Starting | MmapPhase::RestartOn => r matches Some(
                    BufferCall::StreamOn(b),
                ) && b@ == bytes::u32_bytes(self.order, v4l2::V4L2_BUF_TYPE_VIDEO_CAPTURE),
                MmapPhase::RestartOff => r matches Some(BufferCall::StreamOff(b)) && b@
                    == bytes::u32_bytes(self.order, v4l2::V4L2_BUF_TYPE_VIDEO_CAPTURE),
                _ => r is None,
            },
    {
        let capture: u32 = v4l2::V4L2_BUF_TYPE_VIDEO_CAPTURE;
        match &self.phase {
            MmapPhase::Request(count) => Some(
                BufferCall::RequestBuffers(v4l2::buffers_request(self.order, *count, capture)),
            ),
            MmapPhase::Query(index) => Some(
                BufferCall::QueryBuffer(v4l2::queue_buffer(self.order, *index, capture)),
            ),
            MmapPhase::MapBuffer { length, offset, .. } => Some(
                BufferCall::MapBuffer { length: *length, offset: *offset },
            ),
            MmapPhase::Queue(index) => Some(
                BufferCall::QueueBuffer(v4l2::queue_buffer(self.order, *index, capture)),
            ),
            MmapPhase::RestartQueue(index) => Some(
                BufferCall::QueueBuffer(v4l2::queue_buffer(self.order, *index, capture)),
            ),
            MmapPhase::Starting => Some(BufferCall::StreamOn(v4l2::stream_on(self.order, capture))),
            MmapPhase::RestartOn => Some(BufferCall::StreamOn(v4l2::stream_on(self.order, capture))),
            MmapPhase::RestartOff => Some(
                BufferCall::StreamOff(v4l2::stream_off(self.order, capture)),
            ),
            _ => None,
        }
    }

    fn restart_phase(&self, index: u64) -> (r: MmapPhase)
        ensures
            r == restart_from(self@, index as int),
    {
        if index < self.lengths.len() as u64 {
            MmapPhase::RestartQueue(index as u32)
        } else {
            MmapPhase::RestartOn
        }
    }

    /// Takes what the pending call returned.
    pub fn reply(&mut self, reply: BufferReply)
        ensures
            final(self)@ == after_reply(old(self)@, reply),
    {
        match &self.phase {
            MmapPhase::Request(_) => match reply {
                BufferReply::Granted(block) => {
                    let granted: u32 = v4l2::request_buffers(self.order, &block);
                    self.granted = granted;
                    self.phase = if granted < 2 {
                        MmapPhase::SetupFailed(SetupError::TooFewBuffers(granted))
                    } else {
                        MmapPhase::Query(0)
                    };
                },
                BufferReply::Failed(words) => {
                    self.phase = MmapPhase::SetupFailed(SetupError::Call(words));
                },
                _ => {},
            },
            MmapPhase::Query(at) => {
                let index: u32 = *at;
                match reply {
                    BufferReply::Described(block) => {
                        let (length, offset) = v4l2::query_buffer(self.order, &block);
                        self.phase = MmapPhase::MapBuffer { index, length, offset };
                    },
                    BufferReply::Failed(words) => {
                        self.phase = MmapPhase::SetupFailed(SetupError::Call(words));
                    },
                    _ => {},
                }
            },
            MmapPhase::MapBuffer { index: at, length: bytes, .. } => {
                let index: u32 = *at;
                let length: u32 = *bytes;
                match reply {
                    BufferReply::Done => {
                        self.lengths.push(length);
                        self.phase = if index < self.granted && index + 1 < self.granted {
                            MmapPhase::Query(index + 1)
                        } else {
                            MmapPhase::Queue(0)
                        };
                    },
                    BufferReply::Failed(_) => {
                        self.phase = MmapPhase::SetupFailed(SetupError::NotMapped(index));
                    },
                    _ => {},
                }
            },
            MmapPhase::Queue(at) => {
                let index: u32 = *at;
                match reply {
                    BufferReply::Done => {
                        self.phase = if index < self.granted && index + 1 < self.granted {
                            MmapPhase::Queue(index + 1)
                        } else {
                            MmapPhase::Ready
                        };
                    },
                    BufferReply::Failed(words) => {
                        self.phase = MmapPhase::SetupFailed(SetupError::Call(words));
                    },
                    _ => {},
                }
            },
            MmapPhase::Starting | MmapPhase::RestartOn => match reply {
                BufferReply::Done => {
                    self.streaming = true;
                    self.phase = MmapPhase::Ready;
                },
                BufferReply::Failed(words) => {
                    self.phase = MmapPhase::CallFailed(words);
                },
                _ => {},
            },
            MmapPhase::RestartOff => {
                self.streaming = false;
                self.phase = self.restart_phase(0);
            },
            MmapPhase::RestartQueue(at) => {
                let index: u32 = *at;
                match reply {
                    BufferReply::Done => {
                        self.phase = self.restart_phase(index as u64 + 1);
                    },
                    BufferReply::Failed(words) => {
                        self.phase = MmapPhase::CallFailed(words);
                    },
                    _ => {},
                }
            },
            _ => {},
        }
    }

    /// Start streaming
    pub fn start(&mut self)
        requires
            is_idle(old(self)@),
        ensures
            final(self)@ == (MmapModel { phase: MmapPhase::Starting, ..old(self)@ }),
    {
        self.phase = MmapPhase::Starting;
    }

    /// Recovery rung 1: STREAMOFF, re-enqueue all buffers, STREAMON.
    /// Used to clear the Facecam Pro's PRO_STREAM_START_RACE: the first
    /// STREAMON after open returns no frames roughly half the time. A clean
    /// streamoff/requeue/streamon cycle reliably restores frame flow.
    pub fn restart_stream(&mut self)
        requires
            is_idle(old(self)@),
        ensures
            final(self)@ == (MmapModel {
                phase: if old(self).streaming {
                    MmapPhase::RestartOff
                } else {
                    restart_from(old(self)@, 0)
                },
                ..old(self)@
            }),
    {
        self.phase = if self.streaming {
            MmapPhase::RestartOff
        } else {
            self.restart_phase(0)
        };
    }

    /// Whether a frame is ready, from the result of `poll`: `None` where the call itself failed,
    /// and whether it found a frame before the timeout otherwise.
    pub fn frame_ready(&self, result: i32) -> (r: Option<bool>)
        ensures
            r == if result < 0 {
                None
            } else {
                Some(result > 0)
            },
    {
        if result < 0 {
            None
        } else {
            Some(result > 0)
        }
    }

    /// The index of the buffer that a dequeued block names, and how many of its bytes hold the
    /// frame; or the message that there is no such buffer.
    pub fn dequeue_frame(&self, block: &[u8; 88]) -> (r: Result<(usize, u32), String>)
        ensures
            ({
                let index = bytes::u32_at(self.order, block@, 0);
                let used = bytes::u32_at(self.order, block@, 8);
                if index < self.lengths@.len() {
                    r == Ok::<(usize, u32), String>(
                        (index as usize, frame_extent(used, self.lengths@[index as int])),
                    )
                } else {
                    r matches Err(message) && message@ == out_of_range_text(
                        index,
                        self.lengths@.len(),
                    )
                }
            }),
    {
        let b = block.as_slice();
        let index: u32 = bytes::read_u32(self.order, b, 0);
        let used: u32 = bytes::read_u32(self.order, b, 8);
        if (index as usize) < self.lengths.len() {
            let length: u32 = self.lengths[index as usize];
            if 0 < used && used <= length {
                Ok((index as usize, used))
            } else {
                Ok((index as usize, length))
            }
        } else {
            let mut message = "buffer index ".to_owned();
            push_decimal(&mut message, index as u64);
            message.append(" out of range (have ");
            push_decimal(&mut message, self.lengths.len() as u64);
            message.append(")");
            Err(message)
        }
    }

    /// The call that enqueues a buffer again after its frame was processed.
    pub fn enqueue_buffer(&self, index: u32) -> (r: BufferCall)
        ensures
            r matches BufferCall::QueueBuffer(b) && b@ == v4l2::buffer_block(
                self.order,
                index,
                v4l2::V4L2_BUF_TYPE_VIDEO_CAPTURE,
            ),
    {
        BufferCall::QueueBuffer(
            v4l2::queue_buffer(self.order, index, v4l2::V4L2_BUF_TYPE_VIDEO_CAPTURE),
        )
    }

    /// Stop streaming: the call to make, whatever it returns, where the stream is running.
    pub fn stop(&mut self) -> (r: Option<BufferCall>)
        ensures
            final(self)@ == (MmapModel { streaming: false, ..old(self)@ }),
            if old(self).streaming {
                r matches Some(BufferCall::StreamOff(b)) && b@ == bytes::u32_bytes(
                    old(self).order,
                    v4l2::V4L2_BUF_TYPE_VIDEO_CAPTURE,
                )
            } else {
                r is None
            },
    {
        if self.streaming {
            self.streaming = false;
            Some(
                BufferCall::StreamOff(
                    v4l2::stream_off(self.order, v4l2::V4L2_BUF_TYPE_VIDEO_CAPTURE),
                ),
            )
        } else {
            None
        }
    }
}

// ---------------------------------------------------------------------------------------------
// Laws
// ---------------------------------------------------------------------------------------------

/// What holds of a capture in every state: buffers are mapped one after the other, all granted
/// buffers, of which there are at least two, are mapped before the first one is enqueued, and
/// there is no stream before the buffers are set up.
pub open spec fn mmap_ok(m: MmapModel) -> bool {
    match m.phase {
        MmapPhase::Request(_) => m.lengths.len() == 0 && !m.streaming,
        MmapPhase::Query(index) => m.lengths.len() == index && index < m.granted && m.granted >= 2
            && !m.streaming,
        MmapPhase::MapBuffer { index, .. } => m.lengths.len() == index && index < m.granted
            && m.granted >= 2 && !m.streaming,
        MmapPhase::Queue(index) => m.lengths.len() == m.granted && index < m.granted && m.granted
            >= 2 && !m.streaming,
        MmapPhase::RestartQueue(index) => m.lengths.len() == m.granted && index < m.granted
            && m.granted >= 2 && !m.streaming,
        MmapPhase::RestartOn => m.lengths.len() == m.granted && m.granted >= 2 && !m.streaming,
        MmapPhase::SetupFailed(_) => !m.streaming,
        _ => m.lengths.len() == m.granted && m.granted >= 2,
    }
}

/// A new capture is well formed.
pub proof fn capture_starts_ok(order: ByteOrder, num_buffers: u32)
    ensures
        mmap_ok(mmap_start(order, num_buffers)),
{
}

/// Every answer keeps a capture well formed.
pub proof fn capture_stays_ok(m: MmapModel, reply: BufferReply)
    requires
        mmap_ok(m),
    ensures
        mmap_ok(after_reply(m, reply)),
{
}

/// A restart of a well-formed capture that is idle is well formed too.
pub proof fn restart_begins_ok(m: MmapModel)
    requires
        mmap_ok(m),
        is_idle(m),
    ensures
        mmap_ok(
            MmapModel {
                phase: if m.streaming {
                    MmapPhase::RestartOff
                } else {
                    restart_from(m, 0)
                },
                ..m
            },
        ),
{
}

/// The capture after the answers to a list of calls.
pub open spec fn after_replies(m: MmapModel, replies: Seq<BufferReply>) -> MmapModel
    decreases replies.len(),
{
    if replies.len() == 0 {
        m
    } else {
        after_reply(after_replies(m, replies.drop_last()), replies.last())
    }
}

/// As many answers as there are buffers, all of them that the call succeeded.
pub open spec fn all_done(n: nat) -> Seq<BufferReply> {
    Seq::new(n, |i: int| BufferReply::Done)
}

/// A restart in which every buffer can be enqueued and the stream starts ends in a running stream
/// with the same buffers, one call for each buffer and one for the stream.
pub proof fn restart_brings_the_stream_back(m: MmapModel, n: nat)
    requires
        mmap_ok(m),
        !m.streaming,
        m.phase == restart_from(m, 0),
        n <= m.lengths.len(),
    ensures
        after_replies(m, all_done(n)) == (MmapModel { phase: restart_from(m, n as int), ..m }),
        n == m.lengths.len() ==> after_replies(m, all_done(n + 1)) == (MmapModel {
            streaming: true,
            phase: MmapPhase::Ready,
            ..m
        }),
    decreases n,
{
    if n > 0 {
        restart_brings_the_stream_back(m, (n - 1) as nat);
        assert(all_done(n).drop_last() =~= all_done((n - 1) as nat));
    }
    assert(all_done(n + 1).drop_last() =~= all_done(n));
}

/// The bytes that are handed on never exceed the buffer.
pub proof fn frames_fit_their_buffer(used: u32, length: u32)
    ensures
        frame_extent(used, length) <= length,
        used > 0 && used <= length ==> frame_extent(used, length) == used,
{
}

/// Where a frame holds a JPEG start marker, the JPEG data begin with it, and no marker comes
/// before.
pub proof fn jpeg_data_begin_with_the_marker(data: Seq<u8>)
    requires
        has_marker(data),
    ensures
        marker_at(data, jpeg_start(data)),
        forall|j: int| 0 <= j < jpeg_start(data) ==> !marker_at(data, j),
{
    let k = choose|k: int| marker_at(data, k);
    lemma_marker_from(data, 0, k);
}

proof fn lemma_marker_from(data: Seq<u8>, from: int, k: int)
    requires
        0 <= from <= k,
        marker_at(data, k),
    ensures
        marker_at(data, marker_from(data, from)),
        from <= marker_from(data, from) <= k,
        forall|j: int| from <= j < marker_from(data, from) ==> !marker_at(data, j),
    decreases k - from,
{
    if !marker_at(data, from) {
        lemma_marker_from(data, from + 1, k);
    }
}

/// The answers of a kernel that describes buffers as the given blocks say, and maps them.
pub open spec fn described_replies(blocks: Seq<[u8; 88]>) -> Seq<BufferReply>
    decreases blocks.len(),
{
    if blocks.len() == 0 {
        Seq::empty()
    } else {
        described_replies(blocks.drop_last()).push(BufferReply::Described(blocks.last())).push(
            BufferReply::Done,
        )
    }
}

proof fn lemma_append(m: MmapModel, a: Seq<BufferReply>, b: Seq<BufferReply>)
    ensures
        after_replies(m, a + b) == after_replies(after_replies(m, a), b),
    decreases b.len(),
{
    if b.len() == 0 {
        assert(a + b =~= a);
    } else {
        lemma_append(m, a, b.drop_last());
        assert((a + b).drop_last() =~= a + b.drop_last());
    }
}

proof fn lemma_buffers_mapped(m: MmapModel, blocks: Seq<[u8; 88]>)
    requires
        m.phase == MmapPhase::Query(0),
        m.lengths.len() == 0,
        m.granted >= 2,
        blocks.len() <= m.granted,
    ensures
        ({
            let r = after_replies(m, described_replies(blocks));
            &&& r.order == m.order && r.granted == m.granted && r.streaming == m.streaming
            &&& r.lengths.len() == blocks.len()
            &&& forall|i: int|
                0 <= i < blocks.len() ==> #[trigger] r.lengths[i] == bytes::u32_at(
                    m.order,
                    blocks[i]@,
                    72,
                )
            &&& blocks.len() < m.granted ==> r.phase == MmapPhase::Query(blocks.len() as u32)
            &&& blocks.len() == m.granted ==> r.phase == MmapPhase::Queue(0)
        }),
    decreases blocks.len(),
{
    if blocks.len() > 0 {
        let before = blocks.drop_last();
        lemma_buffers_mapped(m, before);
        let r0 = described_replies(before);
        let r1 = r0.push(BufferReply::Described(blocks.last()));
        let r2 = r1.push(BufferReply::Done);
        assert(r2.drop_last() =~= r1);
        assert(r1.drop_last() =~= r0);
        let m0 = after_replies(m, r0);
        let m1 = after_replies(m, r1);
        assert(m1 == after_reply(m0, BufferReply::Described(blocks.last())));
        let m2 = after_replies(m, r2);
        assert(m2 == after_reply(m1, BufferReply::Done));
        assert forall|i: int| 0 <= i < blocks.len() implies #[trigger] m2.lengths[i]
            == bytes::u32_at(m.order, blocks[i]@, 72) by {
            if i < before.len() {
                assert(m0.lengths[i] == bytes::u32_at(m.order, before[i]@, 72));
            }
        }
    }
}

proof fn lemma_queued(m: MmapModel, n: nat)
    requires
        m.phase == MmapPhase::Queue(0),
        0 < m.granted,
        n <= m.granted,
    ensures
        after_replies(m, all_done(n)) == (MmapModel {
            phase: if n < m.granted {
                MmapPhase::Queue(n as u32)
            } else {
                MmapPhase::Ready
            },
            ..m
        }),
    decreases n,
{
    if n > 0 {
        lemma_queued(m, (n - 1) as nat);
        assert(all_done(n).drop_last() =~= all_done((n - 1) as nat));
    }
}

/// The calls of a set-up in which the kernel grants buffers and describes each of them, step by step:
/// as many buffers are asked for as were wanted; then, for the buffer with the number `k`, a call
/// asks for its description and the next maps what the kernel described (its length and its offset
/// stand at the bytes 72 and 64 of its block); once all are mapped, they are enqueued in order.
pub proof fn viewer_buffers_are_mapped_as_described(
    order: ByteOrder,
    wanted: u32,
    granted: [u8; 20],
    blocks: Seq<[u8; 88]>,
    k: int,
)
    requires
        blocks.len() == bytes::u32_at(order, granted@, 0),
        blocks.len() >= 2,
        0 <= k < blocks.len(),
    ensures
        ({
            let start = mmap_start(order, wanted);
            let before = seq![BufferReply::Granted(granted)] + described_replies(blocks.take(k));
            let told = before.push(BufferReply::Described(blocks[k]));
            let all = seq![BufferReply::Granted(granted)] + described_replies(blocks);
            let queued = all + all_done(k as nat);
            let done = after_replies(start, all + all_done(blocks.len()));
            &&& pending_call(start) matches Some(capture::CallModel::RequestBuffers(b)) && bytes::u32_at(
                order,
                b,
                0,
            ) == wanted && bytes::u32_at(order, b, 4) == 1 && bytes::u32_at(order, b, 8) == 1
            &&& pending_call(after_replies(start, before)) matches Some(capture::CallModel::QueryBuffer(b))
                && bytes::u32_at(order, b, 0) == k && bytes::u32_at(order, b, 4) == 1
            &&& pending_call(after_replies(start, told)) == Some(
                capture::CallModel::MapBuffer {
                    length: bytes::u32_at(order, blocks[k]@, 72),
                    offset: bytes::u32_at(order, blocks[k]@, 64),
                },
            )
            &&& pending_call(after_replies(start, queued)) matches Some(capture::CallModel::QueueBuffer(b))
                && bytes::u32_at(order, b, 0) == k && bytes::u32_at(order, b, 4) == 1
            &&& done.phase is Ready && !done.streaming
            &&& done.lengths.len() == blocks.len()
            &&& done.lengths[k] == bytes::u32_at(order, blocks[k]@, 72)
        }),
{
    let start = mmap_start(order, wanted);
    let first = seq![BufferReply::Granted(granted)];
    assert(first.drop_last() =~= Seq::empty());
    assert(after_replies(start, first.drop_last()) == start);
    let m1 = after_replies(start, first);
    assert(m1 == after_reply(start, BufferReply::Granted(granted)));
    let some = blocks.take(k);
    let before = first + described_replies(some);
    let all = first + described_replies(blocks);
    lemma_append(start, first, described_replies(some));
    lemma_append(start, first, described_replies(blocks));
    lemma_buffers_mapped(m1, some);
    lemma_buffers_mapped(m1, blocks);
    let told = before.push(BufferReply::Described(blocks[k]));
    assert(told.drop_last() =~= before);
    let m2 = after_replies(start, before);
    assert(after_replies(start, told) == after_reply(m2, BufferReply::Described(blocks[k])));
    let m3 = after_replies(start, all);
    lemma_append(start, all, all_done(k as nat));
    lemma_append(start, all, all_done(blocks.len()));
    lemma_queued(m3, k as nat);
    lemma_queued(m3, blocks.len());
    v4l2::buffer_requests_name_their_count(order, wanted, 1);
    v4l2::buffer_blocks_name_their_index(order, k as u32, 1);
}

/// A restart stops the stream, enqueues every buffer by its index, and starts the stream: the calls
/// that it makes, one by one.
pub proof fn restart_makes_these_calls(m: MmapModel, k: nat)
    requires
        mmap_ok(m),
        !m.streaming,
        m.phase == restart_from(m, 0),
        k <= m.lengths.len(),
    ensures
        k < m.lengths.len() ==> (pending_call(after_replies(m, all_done(k))) matches Some(
            capture::CallModel::QueueBuffer(b),
        ) && bytes::u32_at(m.order, b, 0) == k),
        k == m.lengths.len() ==> (pending_call(after_replies(m, all_done(k))) matches Some(
            capture::CallModel::StreamOn(b),
        ) && b == bytes::u32_bytes(m.order, 1)),
{
    restart_brings_the_stream_back(m, k);
    v4l2::buffer_blocks_name_their_index(m.order, k as u32, 1);
}

/// A capture needs at least two buffers.
pub proof fn captures_need_two_buffers(order: ByteOrder, wanted: u32, granted: [u8; 20])
    ensures
        after_reply(mmap_start(order, wanted), BufferReply::Granted(granted)).phase is SetupFailed
            <==> bytes::u32_at(order, granted@, 0) < 2,
{
}

/// A failed call of the set-up ends it, with the words of the call, or with the buffer that could
/// not be mapped; nothing streams then.
pub proof fn failed_calls_end_the_set_up(m: MmapModel, words: String)
    requires
        mmap_ok(m),
    ensures
        ({
            let phase = after_reply(m, BufferReply::Failed(words)).phase;
            match pending_call(m) {
                Some(capture::CallModel::RequestBuffers(_)) | Some(capture::CallModel::QueryBuffer(_)) => phase
                    == MmapPhase::SetupFailed(SetupError::Call(words)),
                Some(capture::CallModel::MapBuffer { .. }) => phase matches MmapPhase::SetupFailed(
                    SetupError::NotMapped(i),
                ) && i == m.lengths.len(),
                Some(capture::CallModel::StreamOn(_)) => phase == MmapPhase::CallFailed(words),
                _ => true,
            }
        }),
{
}

/// The JPEG data begin at the first byte `FF` that `D8` follows, and at the start of the frame where
/// there is none.
pub proof fn jpeg_data_begin_with_ff_d8(data: Seq<u8>)
    ensures
        ({
            let start = jpeg_start(data);
            if exists|i: int|
                0 <= i && i + 1 < data.len() && #[trigger] data[i] == 0xFF && data[i + 1] == 0xD8 {
                &&& 0 <= start && start + 1 < data.len()
                &&& data[start] == 0xFF && data[start + 1] == 0xD8
                &&& forall|j: int|
                    0 <= j < start ==> !(#[trigger] data[j] == 0xFF && data[j + 1] == 0xD8)
            } else {
                start == 0
            }
        }),
{
    if exists|i: int|
        0 <= i && i + 1 < data.len() && #[trigger] data[i] == 0xFF && data[i + 1] == 0xD8 {
        let i = choose|i: int|
            0 <= i && i + 1 < data.len() && #[trigger] data[i] == 0xFF && data[i + 1] == 0xD8;
        assert(marker_at(data, i));
        jpeg_data_begin_with_the_marker(data);
        assert forall|j: int| 0 <= j < jpeg_start(data) implies !(#[trigger] data[j] == 0xFF
            && data[j + 1] == 0xD8) by {
            assert(!marker_at(data, j));
        }
    } else {
        assert forall|i: int| !marker_at(data, i) by {
            if marker_at(data, i) {
                assert(data[i] == 0xFF);
            }
        }
    }
}

/// A frame has as many bytes as the driver says, unless it says none or too many: then it has the
/// whole buffer.
pub proof fn frames_have_the_length_that_is_said(used: u32, length: u32)
    ensures
        1 <= used <= length ==> frame_extent(used, length) == used,
        used == 0 || used > length ==> frame_extent(used, length) == length,
{
}

/// An error of the set-up names the number of buffers that the device gave, or the number of the buffer
/// that could not be mapped; an error of a call is passed on. An index out of range is named before the
/// number of buffers.
pub proof fn setup_errors_name_their_number(words: String, n: u32, have: nat)
    ensures
        setup_error_text(SetupError::Call(words)) == words@,
        setup_error_text(SetupError::TooFewBuffers(n)) == "Need at least 2 buffers, got "@
            + text::decimal(n as nat),
        setup_error_text(SetupError::NotMapped(n)) == "mmap failed for buffer "@ + text::decimal(
            n as nat,
        ),
        out_of_range_text(n, have) == "buffer index "@ + text::decimal(n as nat)
            + " out of range (have "@ + text::decimal(have) + ")"@,
{
}

/// A capture shows its own buffers, whether it streams, and its own phase.
pub proof fn captures_show_their_buffers(c: MmapCapture)
    ensures
        c@.order == c.order && c@.granted == c.granted && c@.lengths == c.lengths@ && c@.streaming
            == c.streaming && c@.phase == c.phase,
{
}

} // verus!
