//! The streaming protocol of a capture session.
//!
//! A session asks the kernel for buffers, maps and enqueues each of them and starts the stream.
//! From then on frames are dequeued and their buffers enqueued again. The session says which call
//! comes next and takes what the call returned; the caller makes the calls and holds the mapped
//! memory.

use crate::bytes::{self, ByteOrder};
use crate::formats::VideoMode;
use crate::text::{self, push_decimal, push_signed};
use crate::v4l2;
use vstd::prelude::*;
use vstd::slice::*;
use vstd::string::*;

verus! {

/// How many buffers a session asks for.
pub const BUFFER_COUNT: u32 = 4;

/// A call that a session needs to be made.
#[derive(Debug, Clone, Copy)]
pub enum BufferCall {
    /// `VIDIOC_REQBUFS` with this block.
    RequestBuffers([u8; 20]),
    /// `VIDIOC_QUERYBUF` with this block.
    QueryBuffer([u8; 88]),
    /// Map this many bytes of the device, from this offset.
    MapBuffer { length: u32, offset: u32 },
    /// `VIDIOC_QBUF` with this block.
    QueueBuffer([u8; 88]),
    /// `VIDIOC_STREAMON` with this block.
    StreamOn([u8; 4]),
    /// `VIDIOC_STREAMOFF` with this block.
    StreamOff([u8; 4]),
    /// Unmap the buffer with this index.
    Unmap(u32),
}

/// A call that a session needs to be made, with its block as a sequence.
pub ghost enum CallModel {
    RequestBuffers(Seq<u8>),
    QueryBuffer(Seq<u8>),
    MapBuffer { length: u32, offset: u32 },
    QueueBuffer(Seq<u8>),
    StreamOn(Seq<u8>),
    StreamOff(Seq<u8>),
    Unmap(u32),
}

impl View for BufferCall {
    type V = CallModel;

    open spec fn view(&self) -> CallModel {
        match *self {
            BufferCall::RequestBuffers(block) => CallModel::RequestBuffers(block@),
            BufferCall::QueryBuffer(block) => CallModel::QueryBuffer(block@),
            BufferCall::MapBuffer { length, offset } => CallModel::MapBuffer { length, offset },
            BufferCall::QueueBuffer(block) => CallModel::QueueBuffer(block@),
            BufferCall::StreamOn(block) => CallModel::StreamOn(block@),
            BufferCall::StreamOff(block) => CallModel::StreamOff(block@),
            BufferCall::Unmap(index) => CallModel::Unmap(index),
        }
    }
}

/// The view of a call, where there is one.
pub open spec fn call_view(call: Option<BufferCall>) -> Option<CallModel> {
    match call {
        Some(c) => Some(c@),
        None => None,
    }
}

/// What a call returned.
#[derive(Debug, Clone)]
pub enum BufferReply {
    /// The call succeeded and filled the block of `VIDIOC_REQBUFS`.
    Granted([u8; 20]),
    /// The call succeeded and filled the block of `VIDIOC_QUERYBUF`.
    Described([u8; 88]),
    /// The call succeeded.
    Done,
    /// The call failed; the operating system's words.
    Failed(String),
}

/// Why a session could not start.
#[derive(Debug, Clone, Copy, PartialEq, Eq, Structural)]
pub enum StartError {
    /// The buffers could not be requested.
    RequestBuffers,
    /// The kernel granted no buffer.
    NoBuffers,
    /// The buffer with this index could not be queried.
    QueryBuffer(u32),
    /// The buffer with this index could not be mapped.
    MapBuffer(u32),
    /// The buffer with this index could not be enqueued.
    QueueBuffer(u32),
    /// The stream could not be started.
    StreamOn,
}

/// The message of an error at the start of a session.
pub open spec fn start_error_text(error: StartError) -> Seq<char> {
    match error {
        StartError::RequestBuffers => "REQBUFS"@,
        StartError::NoBuffers => "REQBUFS allocated 0 buffers"@,
        StartError::QueryBuffer(i) => "QUERYBUF index="@ + text::decimal(i as nat),
        StartError::MapBuffer(i) => "mmap index="@ + text::decimal(i as nat),
        StartError::QueueBuffer(i) => "QBUF index="@ + text::decimal(i as nat),
        StartError::StreamOn => "STREAMON"@,
    }
}

impl StartError {
    /// The message of the error.
    pub fn to_text(&self) -> (r: String)
        ensures
            r@ == start_error_text(*self),
    {
        match self {
            StartError::RequestBuffers => "REQBUFS".to_owned(),
            StartError::NoBuffers => "REQBUFS allocated 0 buffers".to_owned(),
            StartError::QueryBuffer(i) => {
                let mut out = "QUERYBUF index=".to_owned();
                push_decimal(&mut out, *i as u64);
                out
            },
            StartError::MapBuffer(i) => {
                let mut out = "mmap index=".to_owned();
                push_decimal(&mut out, *i as u64);
                out
            },
            StartError::QueueBuffer(i) => {
                let mut out = "QBUF index=".to_owned();
                push_decimal(&mut out, *i as u64);
                out
            },
            StartError::StreamOn => "STREAMON".to_owned(),
        }
    }
}

/// Where a session stands.
#[derive(Debug, Clone, Copy, PartialEq, Eq, Structural)]
pub enum SessionPhase {
    /// The buffers are to be requested.
    Request,
    /// The buffer with this index is to be queried.
    Query(u32),
    /// The buffer with this index is to be mapped.
    MapBuffer { index: u32, length: u32, offset: u32 },
    /// The buffer with this index is to be enqueued.
    Queue(u32),
    /// The stream is to be started.
    StreamOn,
    /// Frames can be dequeued.
    Streaming,
    /// The session could not start.
    Failed(StartError),
    /// The session was stopped.
    Stopped,
}

/// A capture session.
#[derive(Debug, Clone)]
pub struct CaptureSession {
    pub order: ByteOrder,
    pub mode: VideoMode,
    /// How many buffers the kernel granted.
    pub granted: u32,
    /// The lengths of the mapped buffers.
    pub lengths: Vec<u32>,
    pub phase: SessionPhase,
}

/// A session, with the lengths of its buffers as a sequence.
pub ghost struct SessionModel {
    pub order: ByteOrder,
    pub mode: VideoMode,
    pub granted: u32,
    pub lengths: Seq<u32>,
    pub phase: SessionPhase,
}

impl View for CaptureSession {
    type V = SessionModel;

    open spec fn view(&self) -> SessionModel {
        SessionModel {
            order: self.order,
            mode: self.mode,
            granted: self.granted,
            lengths: self.lengths@,
            phase: self.phase,
        }
    }
}

/// A session that has not asked for anything yet.
pub open spec fn session_start(order: ByteOrder, mode: VideoMode) -> SessionModel {
    SessionModel {
        order,
        mode,
        granted: 0,
        lengths: Seq::empty(),
        phase: SessionPhase::Request,
    }
}

/// What comes after the buffer with the given index was enqueued.
pub open spec fn after_queue(s: SessionModel, index: u32) -> SessionPhase {
    if index + 1 < s.granted {
        SessionPhase::Query((index + 1) as u32)
    } else {
        SessionPhase::StreamOn
    }
}

/// The call that a session waits for.
pub open spec fn pending_call(s: SessionModel) -> Option<CallModel> {
    let capture = v4l2::V4L2_BUF_TYPE_VIDEO_CAPTURE;
    match s.phase {
        SessionPhase::Request => Some(
            CallModel::RequestBuffers(v4l2::buffers_query(s.order, BUFFER_COUNT, capture)),
        ),
        SessionPhase::Query(index) => Some(
            CallModel::QueryBuffer(v4l2::buffer_block(s.order, index, capture)),
        ),
        SessionPhase::MapBuffer { length, offset, .. } => Some(
            CallModel::MapBuffer { length, offset },
        ),
        SessionPhase::Queue(index) => Some(
            CallModel::QueueBuffer(v4l2::buffer_block(s.order, index, capture)),
        ),
        SessionPhase::StreamOn => Some(CallModel::StreamOn(bytes::u32_bytes(s.order, capture))),
        _ => None,
    }
}

/// The session after the pending call has returned.
pub open spec fn after_call(s: SessionModel, reply: BufferReply) -> SessionModel {
    match s.phase {
        SessionPhase::Request => match reply {
            BufferReply::Granted(block) => {
                let granted = bytes::u32_at(s.order, block@, 0);
                SessionModel {
                    granted,
                    phase: if granted == 0 {
                        SessionPhase::Failed(StartError::NoBuffers)
                    } else {
                        SessionPhase::Query(0)
                    },
                    ..s
                }
            },
            _ => SessionModel { phase: SessionPhase::Failed(StartError::RequestBuffers), ..s },
        },
        SessionPhase::Query(index) => match reply {
            BufferReply::Described(block) => SessionModel {
                phase: SessionPhase::MapBuffer {
                    index,
                    length: bytes::u32_at(s.order, block@, 72),
                    offset: bytes::u32_at(s.order, block@, 64),
                },
                ..s
            },
            _ => SessionModel { phase: SessionPhase::Failed(StartError::QueryBuffer(index)), ..s },
        },
        SessionPhase::MapBuffer { index, length, .. } => match reply {
            BufferReply::Done => SessionModel {
                lengths: s.lengths.push(length),
                phase: SessionPhase::Queue(index),
                ..s
            },
            _ => SessionModel { phase: SessionPhase::Failed(StartError::MapBuffer(index)), ..s },
        },
        SessionPhase::Queue(index) => match reply {
            BufferReply::Done => SessionModel { phase: after_queue(s, index), ..s },
            _ => SessionModel { phase: SessionPhase::Failed(StartError::QueueBuffer(index)), ..s },
        },
        SessionPhase::StreamOn => match reply {
            BufferReply::Done => SessionModel { phase: SessionPhase::Streaming, ..s },
            _ => SessionModel { phase: SessionPhase::Failed(StartError::StreamOn), ..s },
        },
        _ => s,
    }
}

/// What `poll` said.
#[derive(Debug, Clone, Copy, PartialEq, Eq, Structural)]
pub enum PollOutcome {
    /// A frame can be dequeued.
    Ready,
    /// No frame came in time.
    TimedOut,
    /// The call itself failed.
    Failed,
}

/// What the result of `poll` means.
pub open spec fn poll_meaning(result: i32) -> PollOutcome {
    if result < 0 {
        PollOutcome::Failed
    } else if result == 0 {
        PollOutcome::TimedOut
    } else {
        PollOutcome::Ready
    }
}

/// What the result of `poll` means.
pub fn poll_outcome(result: i32) -> (r: PollOutcome)
    ensures
        r == poll_meaning(result),
{
    if result < 0 {
        PollOutcome::Failed
    } else if result == 0 {
        PollOutcome::TimedOut
    } else {
        PollOutcome::Ready
    }
}

/// The timeout that is handed to `poll`: the wanted one, or the longest that it takes.
pub fn poll_timeout(timeout_ms: u128) -> (r: i32)
    ensures
        timeout_ms <= i32::MAX ==> r == timeout_ms,
        timeout_ms > i32::MAX ==> r == i32::MAX,
{
    if timeout_ms <= i32::MAX as u128 {
        timeout_ms as i32
    } else {
        i32::MAX
    }
}

/// The message where no frame came in time.
pub fn poll_timeout_text(timeout_ms: i32) -> (r: String)
    ensures
        r@ == "poll timeout waiting for frame ("@ + text::signed_decimal(timeout_ms as int) + "ms)"@,
{
    let mut out = "poll timeout waiting for frame (".to_owned();
    push_signed(&mut out, timeout_ms as i64);
    out.append("ms)");
    out
}

/// A captured frame, in the memory of its buffer.
#[derive(Debug, Clone, Copy)]
pub struct FrameRef<'a> {
    pub order: ByteOrder,
    /// Whether the buffer is to be enqueued again when the frame is done with.
    pub streaming_at_construct: bool,
    pub index: u32,
    pub bytes: &'a [u8],
    pub seq: u32,
    pub timestamp_ms: u64,
}

impl<'a> FrameRef<'a> {
    /// The call that gives the buffer back, where the session was streaming.
    pub fn release(&self) -> (r: Option<BufferCall>)
        ensures
            if self.streaming_at_construct {
                r matches Some(BufferCall::QueueBuffer(b)) && b@ == v4l2::buffer_block(
                    self.order,
                    self.index,
                    v4l2::V4L2_BUF_TYPE_VIDEO_CAPTURE,
                )
            } else {
                r is None
            },
    {
        if self.streaming_at_construct {
            Some(
                BufferCall::QueueBuffer(
                    v4l2::queue_buffer(self.order, self.index, v4l2::V4L2_BUF_TYPE_VIDEO_CAPTURE),
                ),
            )
        } else {
            None
        }
    }
}

/// Whether a dequeued block names a buffer of the session, and no more bytes than it holds.
pub open spec fn names_buffer(s: SessionModel, block: Seq<u8>) -> bool {
    let index = bytes::u32_at(s.order, block, 0);
    index < s.lengths.len() && bytes::u32_at(s.order, block, 8) <= s.lengths[index as int]
}

impl CaptureSession {
    /// Begins a session: four buffers will be requested, mapped and enqueued, and the stream
    /// started.
    pub fn start(order: ByteOrder, mode: VideoMode) -> (r: Self)
        ensures
            r@ == session_start(order, mode),
    {
        let r = CaptureSession {
            order,
            mode,
            granted: 0,
            lengths: Vec::new(),
            phase: SessionPhase::Request,
        };
        proof {
            assert(r.lengths@ =~= Seq::empty());
        }
        r
    }

    /// The call that is to be made next. There is none while frames are streamed, nor once the
    /// session has failed or was stopped.
    pub fn call(&self) -> (r: Option<BufferCall>)
        ensures
            call_view(r) == pending_call(self@),
            match self.phase {
                SessionPhase::Request => r matches Some(BufferCall::RequestBuffers(b)) && b@
                    == v4l2::buffers_query(
                    self.order,
                    BUFFER_COUNT,
                    v4l2::V4L2_BUF_TYPE_VIDEO_CAPTURE,
                ),
                SessionPhase::Query(index) => r matches Some(BufferCall::QueryBuffer(b)) && b@
                    == v4l2::buffer_block(self.order, index, v4l2::V4L2_BUF_TYPE_VIDEO_CAPTURE),
                SessionPhase::MapBuffer { length, offset, .. } => r == Some(
                    BufferCall::MapBuffer { length, offset },
                ),
                SessionPhase::Queue(index) => r matches Some(BufferCall::QueueBuffer(b)) && b@
                    == v4l2::buffer_block(self.order, index, v4l2::V4L2_BUF_TYPE_VIDEO_CAPTURE),
                SessionPhase::StreamOn => r matches Some(BufferCall::StreamOn(b)) && b@
                    == bytes::u32_bytes(self.order, v4l2::V4L2_BUF_TYPE_VIDEO_CAPTURE),
                _ => r is None,
            },
    {
        let capture: u32 = v4l2::V4L2_BUF_TYPE_VIDEO_CAPTURE;
        match self.phase {
            SessionPhase::Request => Some(
                BufferCall::RequestBuffers(
                    v4l2::buffers_request(self.order, BUFFER_COUNT, capture),
                ),
            ),
            SessionPhase::Query(index) => Some(
                BufferCall::QueryBuffer(v4l2::queue_buffer(self.order, index, capture)),
            ),
            SessionPhase::MapBuffer { length, offset, .. } => Some(BufferCall::MapBuffer { length, offset }),
            SessionPhase::Queue(index) => Some(
                BufferCall::QueueBuffer(v4l2::queue_buffer(self.order, index, capture)),
            ),
            SessionPhase::StreamOn => Some(BufferCall::StreamOn(v4l2::stream_on(self.order, capture))),
            _ => None,
        }
    }

    /// Takes what the pending call returned.
    pub fn reply(&mut self, reply: BufferReply)
        ensures
            final(self)@ == after_call(old(self)@, reply),
    {
        match self.phase {
            SessionPhase::Request => match reply {
                BufferReply::Granted(block) => {
                    let granted: u32 = v4l2::request_buffers(self.order, &block);
                    self.granted = granted;
                    self.phase = if granted == 0 {
                        SessionPhase::Failed(StartError::NoBuffers)
                    } else {
                        SessionPhase::Query(0)
                    };
                },
                _ => {
                    self.phase = SessionPhase::Failed(StartError::RequestBuffers);
                },
            },
            SessionPhase::Query(index) => match reply {
                BufferReply::Described(block) => {
                    let (length, offset) = v4l2::query_buffer(self.order, &block);
                    self.phase = SessionPhase::MapBuffer { index, length, offset };
                },
                _ => {
                    self.phase = SessionPhase::Failed(StartError::QueryBuffer(index));
                },
            },
            SessionPhase::MapBuffer { index, length, .. } => match reply {
                BufferReply::Done => {
                    self.lengths.push(length);
                    self.phase = SessionPhase::Queue(index);
                },
                _ => {
                    self.phase = SessionPhase::Failed(StartError::MapBuffer(index));
                },
            },
            SessionPhase::Queue(index) => match reply {
                BufferReply::Done => {
                    self.phase = if index < self.granted && index + 1 < self.granted {
                        SessionPhase::Query(index + 1)
                    } else {
                        SessionPhase::StreamOn
                    };
                },
                _ => {
                    self.phase = SessionPhase::Failed(StartError::QueueBuffer(index));
                },
            },
            SessionPhase::StreamOn => match reply {
                BufferReply::Done => {
                    self.phase = SessionPhase::Streaming;
                },
                _ => {
                    self.phase = SessionPhase::Failed(StartError::StreamOn);
                },
            },
            _ => {},
        }
    }

    /// Whether frames can be dequeued.
    pub fn is_streaming(&self) -> (r: bool)
        ensures
            r == (self.phase == SessionPhase::Streaming),
    {
        self.phase == SessionPhase::Streaming
    }

    /// Whether a dequeued block names a buffer of the session, and no more bytes than it holds.
    pub fn holds_frame(&self, block: &[u8; 88]) -> (r: bool)
        ensures
            r == names_buffer(self@, block@),
    {
        let b = block.as_slice();
        let index: u32 = bytes::read_u32(self.order, b, 0);
        if (index as usize) < self.lengths.len() {
            bytes::read_u32(self.order, b, 8) <= self.lengths[index as usize]
        } else {
            false
        }
    }

    /// The frame that a dequeued block names. `memory` is the mapped memory of its buffer.
    pub fn next_frame<'a>(&self, block: &[u8; 88], memory: &'a [u8]) -> (r: FrameRef<'a>)
        requires
            v4l2::capture_time_fits(self.order, block@),
            names_buffer(self@, block@),
            memory.len() == self.lengths@[bytes::u32_at(self.order, block@, 0) as int],
        ensures
            r.order == self.order,
            r.streaming_at_construct == (self.phase == SessionPhase::Streaming),
            r.index == bytes::u32_at(self.order, block@, 0),
            r.bytes@ == memory@.take(bytes::u32_at(self.order, block@, 8) as int),
            r.seq == bytes::u32_at(self.order, block@, 56),
            r.timestamp_ms == v4l2::capture_millis(self.order, block@),
    {
        let (index, used, seq, timestamp_ms) = v4l2::dequeue_buffer(self.order, block);
        let bytes = slice_subrange(memory, 0, used as usize);
        proof {
            assert(bytes@ =~= memory@.take(used as int));
        }
        FrameRef {
            order: self.order,
            streaming_at_construct: self.is_streaming(),
            index,
            bytes,
            seq,
            timestamp_ms,
        }
    }

    /// Stops the session. The calls that it returns are to be made in order, whatever each of them
    /// returns: stop the stream, unmap every buffer, release the buffers. A session that is not
    /// streaming needs none.
    pub fn stop(&mut self) -> (r: Vec<BufferCall>)
        ensures
            if old(self).phase == SessionPhase::Streaming {
                &&& final(self)@ == (SessionModel {
                    lengths: Seq::empty(),
                    phase: SessionPhase::Stopped,
                    ..old(self)@
                })
                &&& r@.len() == old(self).lengths@.len() + 2
                &&& r@[0] matches BufferCall::StreamOff(b) && b@ == bytes::u32_bytes(
                    old(self).order,
                    v4l2::V4L2_BUF_TYPE_VIDEO_CAPTURE,
                )
                &&& forall|i: int|
                    1 <= i <= old(self).lengths@.len() ==> #[trigger] r@[i] == BufferCall::Unmap(
                        (i - 1) as u32,
                    )
                &&& r@.last() matches BufferCall::RequestBuffers(b) && b@ == v4l2::buffers_query(
                    old(self).order,
                    0,
                    v4l2::V4L2_BUF_TYPE_VIDEO_CAPTURE,
                )
            } else {
                final(self)@ == old(self)@ && r@.len() == 0
            },
    {
        let mut calls: Vec<BufferCall> = Vec::new();
        if !self.is_streaming() {
            return calls;
        }
        let capture: u32 = v4l2::V4L2_BUF_TYPE_VIDEO_CAPTURE;
        calls.push(BufferCall::StreamOff(v4l2::stream_off(self.order, capture)));
        let ghost first = calls@[0];
        for i in 0..self.lengths.len()
            invariant
                calls@.len() == i + 1,
                calls@[0] == first,
                forall|j: int| 1 <= j <= i ==> #[trigger] calls@[j] == BufferCall::Unmap((j - 1) as u32),
        {
            calls.push(BufferCall::Unmap(i as u32));
        }
        calls.push(BufferCall::RequestBuffers(v4l2::buffers_request(self.order, 0, capture)));
        self.lengths = Vec::new();
        self.phase = SessionPhase::Stopped;
        calls
    }
}

// ---------------------------------------------------------------------------------------------
// Laws
// ---------------------------------------------------------------------------------------------

/// What holds of a session in every state: while buffers are set up, one buffer was mapped for
/// each index that was dealt with, and a streaming session holds all buffers that were granted.
pub open spec fn session_ok(s: SessionModel) -> bool {
    match s.phase {
        SessionPhase::Request => s.lengths.len() == 0,
        SessionPhase::Query(index) => s.lengths.len() == index && index < s.granted,
        SessionPhase::MapBuffer { index, .. } => s.lengths.len() == index && index < s.granted,
        SessionPhase::Queue(index) => s.lengths.len() == index + 1 && index < s.granted,
        SessionPhase::StreamOn => s.granted > 0 && s.lengths.len() == s.granted,
        SessionPhase::Streaming => s.granted > 0 && s.lengths.len() == s.granted,
        SessionPhase::Failed(_) => true,
        SessionPhase::Stopped => s.lengths.len() == 0,
    }
}

/// A session that begins is well formed.
pub proof fn session_starts_ok(order: ByteOrder, mode: VideoMode)
    ensures
        session_ok(session_start(order, mode)),
{
}

/// Every answer keeps a session well formed, so a session that streams holds every granted buffer,
/// mapped and enqueued.
pub proof fn session_stays_ok(s: SessionModel, reply: BufferReply)
    requires
        session_ok(s),
    ensures
        session_ok(after_call(s, reply)),
{
}

/// The byte order and the mode of a session never change.
pub proof fn session_keeps_its_mode(s: SessionModel, reply: BufferReply)
    ensures
        after_call(s, reply).order == s.order,
        after_call(s, reply).mode == s.mode,
{
}

/// A failed call ends the set-up, with an error that names the call; a session that failed or was
/// stopped stays so.
pub proof fn failed_calls_end_the_session(s: SessionModel, words: String)
    ensures
        s.phase != SessionPhase::Streaming && s.phase != SessionPhase::Stopped ==> after_call(
            s,
            BufferReply::Failed(words),
        ).phase is Failed,
        s.phase is Failed || s.phase == SessionPhase::Stopped ==> after_call(
            s,
            BufferReply::Failed(words),
        ) == s,
{
}

/// The session after the answers to a list of calls.
pub open spec fn after_calls(s: SessionModel, replies: Seq<BufferReply>) -> SessionModel
    decreases replies.len(),
{
    if replies.len() == 0 {
        s
    } else {
        after_call(after_calls(s, replies.drop_last()), replies.last())
    }
}

/// The answers of a kernel that sets up buffers as the given blocks describe them.
pub open spec fn buffer_replies(blocks: Seq<[u8; 88]>) -> Seq<BufferReply>
    decreases blocks.len(),
{
    if blocks.len() == 0 {
        Seq::empty()
    } else {
        buffer_replies(blocks.drop_last()).push(BufferReply::Described(blocks.last())).push(
            BufferReply::Done,
        ).push(BufferReply::Done)
    }
}

/// The lengths that blocks of `VIDIOC_QUERYBUF` give.
pub open spec fn lengths_in(order: ByteOrder, blocks: Seq<[u8; 88]>) -> Seq<u32> {
    blocks.map_values(|b: [u8; 88]| bytes::u32_at(order, b@, 72))
}

proof fn lemma_buffers_set_up(s: SessionModel, blocks: Seq<[u8; 88]>)
    requires
        s.phase == SessionPhase::Query(0),
        s.lengths.len() == 0,
        blocks.len() <= s.granted,
    ensures
        after_calls(s, buffer_replies(blocks)) == (SessionModel {
            lengths: lengths_in(s.order, blocks),
            phase: if blocks.len() < s.granted {
                SessionPhase::Query(blocks.len() as u32)
            } else {
                SessionPhase::StreamOn
            },
            ..s
        }) || (blocks.len() == 0 && after_calls(s, buffer_replies(blocks)) == s),
    decreases blocks.len(),
{
    if blocks.len() > 0 {
        let before = blocks.drop_last();
        lemma_buffers_set_up(s, before);
        let r0 = buffer_replies(before);
        let r1 = r0.push(BufferReply::Described(blocks.last()));
        let r2 = r1.push(BufferReply::Done);
        let r3 = r2.push(BufferReply::Done);
        assert(r3.drop_last() =~= r2);
        assert(r2.drop_last() =~= r1);
        assert(r1.drop_last() =~= r0);
        let s0 = after_calls(s, r0);
        assert(s0.lengths =~= lengths_in(s.order, before));
        let s1 = after_calls(s, r1);
        let s2 = after_calls(s, r2);
        let s3 = after_calls(s, r3);
        assert(s1 == after_call(s0, BufferReply::Described(blocks.last())));
        assert(s2 == after_call(s1, BufferReply::Done));
        assert(s3 == after_call(s2, BufferReply::Done));
        assert(s3.lengths =~= lengths_in(s.order, blocks));
        assert(buffer_replies(blocks) == r3);
    }
}

/// Where the kernel grants buffers and no call fails, the session streams in the end, with every
/// buffer at the length that the kernel gave it.
pub proof fn successful_calls_start_the_session(
    order: ByteOrder,
    mode: VideoMode,
    granted: [u8; 20],
    blocks: Seq<[u8; 88]>,
)
    requires
        blocks.len() == bytes::u32_at(order, granted@, 0),
        blocks.len() > 0,
    ensures
        ({
            let replies = seq![BufferReply::Granted(granted)] + buffer_replies(blocks);
            after_calls(session_start(order, mode), replies.push(BufferReply::Done)) == (
            SessionModel {
                granted: blocks.len() as u32,
                lengths: lengths_in(order, blocks),
                phase: SessionPhase::Streaming,
                ..session_start(order, mode)
            })
        }),
{
    let s = session_start(order, mode);
    let first = seq![BufferReply::Granted(granted)];
    assert(first.drop_last() =~= Seq::empty());
    assert(after_calls(s, first.drop_last()) == s);
    let s1 = after_calls(s, first);
    assert(s1 == after_call(s, BufferReply::Granted(granted)));
    lemma_after_calls_append(s, first, buffer_replies(blocks));
    lemma_buffers_set_up(s1, blocks);
    let replies = first + buffer_replies(blocks);
    assert(replies.push(BufferReply::Done).drop_last() =~= replies);
}

proof fn lemma_after_calls_append(s: SessionModel, a: Seq<BufferReply>, b: Seq<BufferReply>)
    ensures
        after_calls(s, a + b) == after_calls(after_calls(s, a), b),
    decreases b.len(),
{
    if b.len() == 0 {
        assert(a + b =~= a);
    } else {
        lemma_after_calls_append(s, a, b.drop_last());
        assert((a + b).drop_last() =~= a + b.drop_last());
    }
}

/// The calls of a set-up in which the kernel grants buffers and describes each of them, step by step:
/// four buffers are asked for; then, for the buffer with the number `k`, a call asks for the
/// description of buffer `k`, the next maps what the kernel described (its length and its offset
/// stand at the bytes 72 and 64 of its block), and the next enqueues buffer `k`; in the end the
/// stream is started.
pub proof fn buffers_are_mapped_as_described(
    order: ByteOrder,
    mode: VideoMode,
    granted: [u8; 20],
    blocks: Seq<[u8; 88]>,
    k: int,
)
    requires
        blocks.len() == bytes::u32_at(order, granted@, 0),
        0 <= k < blocks.len(),
    ensures
        ({
            let start = session_start(order, mode);
            let before = seq![BufferReply::Granted(granted)] + buffer_replies(blocks.take(k));
            let told = before.push(BufferReply::Described(blocks[k]));
            let mapped = told.push(BufferReply::Done);
            let all = seq![BufferReply::Granted(granted)] + buffer_replies(blocks);
            &&& pending_call(start) matches Some(CallModel::RequestBuffers(b)) && bytes::u32_at(
                order,
                b,
                0,
            ) == 4 && bytes::u32_at(order, b, 4) == 1 && bytes::u32_at(order, b, 8) == 1
            &&& pending_call(after_calls(start, before)) matches Some(CallModel::QueryBuffer(b))
                && bytes::u32_at(order, b, 0) == k && bytes::u32_at(order, b, 4) == 1
                && bytes::u32_at(order, b, 60) == 1
            &&& pending_call(after_calls(start, told)) == Some(
                CallModel::MapBuffer {
                    length: bytes::u32_at(order, blocks[k]@, 72),
                    offset: bytes::u32_at(order, blocks[k]@, 64),
                },
            )
            &&& pending_call(after_calls(start, mapped)) matches Some(CallModel::QueueBuffer(b))
                && bytes::u32_at(order, b, 0) == k && bytes::u32_at(order, b, 4) == 1
                && bytes::u32_at(order, b, 60) == 1
            &&& pending_call(after_calls(start, all)) matches Some(CallModel::StreamOn(b)) && b
                == bytes::u32_bytes(order, 1)
            &&& after_calls(start, mapped).lengths[k] == bytes::u32_at(order, blocks[k]@, 72)
        }),
{
    let start = session_start(order, mode);
    let first = seq![BufferReply::Granted(granted)];
    assert(first.drop_last() =~= Seq::empty());
    assert(after_calls(start, first.drop_last()) == start);
    let s1 = after_calls(start, first);
    assert(s1 == after_call(start, BufferReply::Granted(granted)));
    let some = blocks.take(k);
    let before = first + buffer_replies(some);
    lemma_after_calls_append(start, first, buffer_replies(some));
    lemma_after_calls_append(start, first, buffer_replies(blocks));
    lemma_buffers_set_up(s1, some);
    lemma_buffers_set_up(s1, blocks);
    let told = before.push(BufferReply::Described(blocks[k]));
    let mapped = told.push(BufferReply::Done);
    assert(told.drop_last() =~= before);
    assert(mapped.drop_last() =~= told);
    let s2 = after_calls(start, before);
    assert(s2.phase == SessionPhase::Query(k as u32));
    if k > 0 {
        assert(s2.lengths == lengths_in(order, some));
    }
    assert(s2.lengths.len() == k);
    let s3 = after_calls(start, told);
    assert(s3 == after_call(s2, BufferReply::Described(blocks[k])));
    let s4 = after_calls(start, mapped);
    assert(s4 == after_call(s3, BufferReply::Done));
    v4l2::buffer_requests_name_their_count(order, 4, 1);
    v4l2::buffer_blocks_name_their_index(order, k as u32, 1);
}

/// A session that is asked for no buffers, or gets none, does not start.
pub proof fn sessions_need_buffers(order: ByteOrder, mode: VideoMode, granted: [u8; 20])
    requires
        bytes::u32_at(order, granted@, 0) == 0,
    ensures
        after_call(session_start(order, mode), BufferReply::Granted(granted)).phase
            == SessionPhase::Failed(StartError::NoBuffers),
{
}

/// The error of a session names the call that failed, and the buffer that it was made for.
pub proof fn errors_name_the_failed_call(s: SessionModel, words: String)
    ensures
        ({
            let phase = after_call(s, BufferReply::Failed(words)).phase;
            match pending_call(s) {
                Some(CallModel::RequestBuffers(_)) => phase == SessionPhase::Failed(
                    StartError::RequestBuffers,
                ),
                Some(CallModel::QueryBuffer(b)) => phase matches SessionPhase::Failed(
                    StartError::QueryBuffer(i),
                ) && i == bytes::u32_at(s.order, b, 0),
                Some(CallModel::MapBuffer { .. }) => phase matches SessionPhase::Failed(
                    StartError::MapBuffer(_),
                ),
                Some(CallModel::QueueBuffer(b)) => phase matches SessionPhase::Failed(
                    StartError::QueueBuffer(i),
                ) && i == bytes::u32_at(s.order, b, 0),
                Some(CallModel::StreamOn(_)) => phase == SessionPhase::Failed(StartError::StreamOn),
                _ => phase == s.phase,
            }
        }),
{
    match s.phase {
        SessionPhase::Query(index) => {
            v4l2::buffer_blocks_name_their_index(s.order, index, 1);
        },
        SessionPhase::Queue(index) => {
            v4l2::buffer_blocks_name_their_index(s.order, index, 1);
        },
        _ => {},
    }
}

/// The three results of `poll` are told apart by the sign.
pub proof fn poll_results_are_told_apart(result: i32)
    ensures
        poll_meaning(result) is Ready <==> result > 0,
        poll_meaning(result) is TimedOut <==> result == 0,
        poll_meaning(result) is Failed <==> result < 0,
{
}

/// A frame is taken only from a buffer of the session, and never longer than this buffer.
pub proof fn frames_lie_in_their_buffer(s: SessionModel, block: Seq<u8>)
    ensures
        names_buffer(s, block) <==> bytes::u32_at(s.order, block, 0) < s.lengths.len()
            && bytes::u32_at(s.order, block, 8) <= s.lengths[bytes::u32_at(s.order, block, 0) as int],
{
}

/// The messages of the errors at the start.
pub proof fn start_errors_are_told_apart(i: u32)
    ensures
        start_error_text(StartError::RequestBuffers) == "REQBUFS"@,
        start_error_text(StartError::NoBuffers) == "REQBUFS allocated 0 buffers"@,
        start_error_text(StartError::QueryBuffer(i)) == "QUERYBUF index="@ + text::decimal(i as nat),
        start_error_text(StartError::MapBuffer(i)) == "mmap index="@ + text::decimal(i as nat),
        start_error_text(StartError::QueueBuffer(i)) == "QBUF index="@ + text::decimal(i as nat),
        start_error_text(StartError::StreamOn) == "STREAMON"@,
{
}

/// A call is told as it is made: its block, or the length and the offset that it maps.
pub proof fn calls_are_told_as_they_are_made(call: BufferCall)
    ensures
        match call {
            BufferCall::RequestBuffers(block) => call_view(Some(call)) == Some(
                CallModel::RequestBuffers(block@),
            ),
            BufferCall::QueryBuffer(block) => call_view(Some(call)) == Some(
                CallModel::QueryBuffer(block@),
            ),
            BufferCall::MapBuffer { length: l, offset: o } => call_view(Some(call))
                matches Some(CallModel::MapBuffer { length, offset }) && length == l && offset == o,
            BufferCall::QueueBuffer(block) => call_view(Some(call)) == Some(
                CallModel::QueueBuffer(block@),
            ),
            BufferCall::StreamOn(block) => call_view(Some(call)) == Some(CallModel::StreamOn(block@)),
            BufferCall::StreamOff(block) => call_view(Some(call)) == Some(CallModel::StreamOff(block@)),
            BufferCall::Unmap(index) => call_view(Some(call)) == Some(CallModel::Unmap(index)),
        },
        call_view(None) is None,
{
}

/// A session shows its own mode, its own buffers and its own phase.
pub proof fn sessions_show_their_buffers(s: CaptureSession)
    ensures
        s@.order == s.order && s@.mode == s.mode && s@.granted == s.granted && s@.lengths == s.lengths@
            && s@.phase == s.phase,
{
}

} // verus!
