use facecam::bytes::{write_u32, ByteOrder};
use facecam::capture::{
    poll_outcome, poll_timeout, poll_timeout_text, BufferCall, BufferReply, CaptureSession,
    PollOutcome, SessionPhase, StartError,
};
use facecam::formats::{PixelFormat, VideoMode};

const LE: ByteOrder = ByteOrder::Little;

fn mode() -> VideoMode {
    VideoMode {
        format: PixelFormat::Mjpeg,
        width: 1920,
        height: 1080,
        fps_numerator: 1,
        fps_denominator: 30,
    }
}

fn granted(n: u32) -> BufferReply {
    let mut block = [0u8; 20];
    write_u32(LE, &mut block, 0, n);
    BufferReply::Granted(block)
}

fn described(length: u32, offset: u32) -> BufferReply {
    let mut block = [0u8; 88];
    write_u32(LE, &mut block, 64, offset);
    write_u32(LE, &mut block, 72, length);
    BufferReply::Described(block)
}

fn failed() -> BufferReply {
    BufferReply::Failed("no".to_string())
}

fn streaming() -> CaptureSession {
    let mut s = CaptureSession::start(LE, mode());
    s.reply(granted(2));
    for i in 0..2 {
        s.reply(described(100 + i, 4096 * i));
        s.reply(BufferReply::Done);
        s.reply(BufferReply::Done);
    }
    s.reply(BufferReply::Done);
    s
}

#[test]
fn a_session_sets_up_each_buffer_and_starts() {
    let mut s = CaptureSession::start(LE, mode());
    assert!(matches!(s.call(), Some(BufferCall::RequestBuffers(b)) if b[0] == 4));
    s.reply(granted(2));
    assert!(matches!(s.call(), Some(BufferCall::QueryBuffer(b)) if b[0] == 0));
    s.reply(described(100, 0));
    assert!(matches!(s.call(), Some(BufferCall::MapBuffer { length: 100, offset: 0 })));
    s.reply(BufferReply::Done);
    assert!(matches!(s.call(), Some(BufferCall::QueueBuffer(b)) if b[0] == 0));
    s.reply(BufferReply::Done);
    assert!(matches!(s.call(), Some(BufferCall::QueryBuffer(b)) if b[0] == 1));
    s.reply(described(101, 4096));
    s.reply(BufferReply::Done);
    s.reply(BufferReply::Done);
    assert!(matches!(s.call(), Some(BufferCall::StreamOn([1, 0, 0, 0]))));
    assert!(!s.is_streaming());
    s.reply(BufferReply::Done);
    assert!(s.is_streaming());
    assert!(s.call().is_none());
    assert_eq!(s.lengths, vec![100, 101]);
    assert_eq!(s.mode, mode());
}

#[test]
fn every_failed_call_names_itself() {
    let mut s = CaptureSession::start(LE, mode());
    s.reply(failed());
    assert_eq!(s.phase, SessionPhase::Failed(StartError::RequestBuffers));
    assert_eq!(StartError::RequestBuffers.to_text(), "REQBUFS");
    let mut s = CaptureSession::start(LE, mode());
    s.reply(granted(0));
    assert_eq!(s.phase, SessionPhase::Failed(StartError::NoBuffers));
    assert_eq!(StartError::NoBuffers.to_text(), "REQBUFS allocated 0 buffers");
    let texts = ["QUERYBUF index=0", "mmap index=0", "QBUF index=0"];
    for fail_at in 0..3 {
        let mut s = CaptureSession::start(LE, mode());
        s.reply(granted(1));
        for step in 0..3 {
            if step == fail_at {
                s.reply(failed());
            } else if step == 0 {
                s.reply(described(8, 0));
            } else {
                s.reply(BufferReply::Done);
            }
        }
        match s.phase {
            SessionPhase::Failed(e) => assert_eq!(e.to_text(), texts[fail_at]),
            other => panic!("{:?}", other),
        }
        assert!(s.call().is_none());
    }
    let mut s = CaptureSession::start(LE, mode());
    s.reply(granted(1));
    s.reply(described(8, 0));
    s.reply(BufferReply::Done);
    s.reply(BufferReply::Done);
    s.reply(failed());
    assert_eq!(s.phase, SessionPhase::Failed(StartError::StreamOn));
    assert_eq!(StartError::StreamOn.to_text(), "STREAMON");
    s.reply(BufferReply::Done);
    assert_eq!(s.phase, SessionPhase::Failed(StartError::StreamOn));
}

#[test]
fn frames_point_into_their_buffers() {
    let s = streaming();
    let mut block = [0u8; 88];
    write_u32(LE, &mut block, 0, 1);
    write_u32(LE, &mut block, 8, 3);
    write_u32(LE, &mut block, 24, 2);
    write_u32(LE, &mut block, 32, 7_000);
    write_u32(LE, &mut block, 56, 9);
    assert!(s.holds_frame(&block));
    let memory: Vec<u8> = (0..101).collect();
    let frame = s.next_frame(&block, &memory);
    assert_eq!(frame.bytes, &[0, 1, 2]);
    assert_eq!((frame.index, frame.seq, frame.timestamp_ms), (1, 9, 2007));
    assert!(matches!(frame.release(), Some(BufferCall::QueueBuffer(b)) if b[0] == 1));
    write_u32(LE, &mut block, 8, 102);
    assert!(!s.holds_frame(&block));
    write_u32(LE, &mut block, 0, 2);
    write_u32(LE, &mut block, 8, 0);
    assert!(!s.holds_frame(&block));
}

#[test]
fn a_stopped_session_releases_everything_once() {
    let mut s = streaming();
    let calls = s.stop();
    assert_eq!(calls.len(), 4);
    assert!(matches!(calls[0], BufferCall::StreamOff([1, 0, 0, 0])));
    assert!(matches!(calls[1], BufferCall::Unmap(0)));
    assert!(matches!(calls[2], BufferCall::Unmap(1)));
    assert!(matches!(calls[3], BufferCall::RequestBuffers(b) if b[0] == 0));
    assert_eq!(s.phase, SessionPhase::Stopped);
    assert!(s.stop().is_empty());
}

#[test]
fn polling_has_three_outcomes() {
    assert_eq!(poll_outcome(-1), PollOutcome::Failed);
    assert_eq!(poll_outcome(0), PollOutcome::TimedOut);
    assert_eq!(poll_outcome(1), PollOutcome::Ready);
    assert_eq!(poll_timeout(1500), 1500);
    assert_eq!(poll_timeout(u128::MAX), i32::MAX);
    assert_eq!(poll_timeout_text(1500), "poll timeout waiting for frame (1500ms)");
}
