use facecam::bytes::{write_u32, ByteOrder};
use facecam::capture::{BufferCall, BufferReply};
use facecam::mmap::{jpeg_data, MmapCapture, MmapPhase, SetupError};

const LE: ByteOrder = ByteOrder::Little;

fn granted(n: u32) -> BufferReply {
    let mut block = [0u8; 20];
    write_u32(LE, &mut block, 0, n);
    BufferReply::Granted(block)
}

fn described(length: u32, offset: u32) -> BufferReply {
    let mut block = [0u8; 88];
    write_u32(LE, &mut block, 64, offset);
    write_u32(LE, &mut block, 72, length);
    BufferReply::Described(block)
}

fn failed(words: &str) -> BufferReply {
    BufferReply::Failed(words.to_string())
}

fn ready() -> MmapCapture {
    let mut c = MmapCapture::new(LE, 4);
    c.reply(granted(2));
    for i in 0..2 {
        c.reply(described(64 + i, 4096 * i));
        c.reply(BufferReply::Done);
    }
    c.reply(BufferReply::Done);
    c.reply(BufferReply::Done);
    c
}

#[test]
fn all_buffers_are_mapped_before_the_first_is_enqueued() {
    let mut c = MmapCapture::new(LE, 4);
    let mut calls = Vec::new();
    loop {
        match c.call() {
            Some(BufferCall::RequestBuffers(b)) => {
                assert_eq!(b[0], 4);
                calls.push("request");
                c.reply(granted(2));
            }
            Some(BufferCall::QueryBuffer(_)) => {
                calls.push("query");
                c.reply(described(64, 0));
            }
            Some(BufferCall::MapBuffer { .. }) => {
                calls.push("map");
                c.reply(BufferReply::Done);
            }
            Some(BufferCall::QueueBuffer(_)) => {
                calls.push("queue");
                c.reply(BufferReply::Done);
            }
            _ => break,
        }
    }
    assert_eq!(calls, vec!["request", "query", "map", "query", "map", "queue", "queue"]);
    assert!(matches!(c.phase, MmapPhase::Ready));
    assert!(!c.streaming);
}

#[test]
fn the_set_up_needs_two_buffers() {
    let mut c = MmapCapture::new(LE, 4);
    c.reply(granted(1));
    match c.phase {
        MmapPhase::SetupFailed(e) => assert_eq!(e.to_text(), "Need at least 2 buffers, got 1"),
        other => panic!("{:?}", other),
    }
    let mut c = MmapCapture::new(LE, 4);
    c.reply(failed("busy"));
    assert!(matches!(&c.phase, MmapPhase::SetupFailed(e) if e.to_text() == "busy"));
    let mut c = MmapCapture::new(LE, 4);
    c.reply(granted(2));
    c.reply(described(1, 0));
    c.reply(failed("no memory"));
    assert!(matches!(&c.phase, MmapPhase::SetupFailed(SetupError::NotMapped(0))));
    assert!(matches!(&c.phase, MmapPhase::SetupFailed(e) if e.to_text() == "mmap failed for buffer 0"));
}

#[test]
fn a_restart_enqueues_every_buffer_again() {
    let mut c = ready();
    c.start();
    assert!(matches!(c.call(), Some(BufferCall::StreamOn([1, 0, 0, 0]))));
    c.reply(BufferReply::Done);
    assert!(c.streaming);
    c.restart_stream();
    assert!(matches!(c.call(), Some(BufferCall::StreamOff(_))));
    c.reply(failed("was not streaming"));
    assert!(!c.streaming);
    assert!(matches!(c.call(), Some(BufferCall::QueueBuffer(b)) if b[0] == 0));
    c.reply(BufferReply::Done);
    assert!(matches!(c.call(), Some(BufferCall::QueueBuffer(b)) if b[0] == 1));
    c.reply(BufferReply::Done);
    assert!(matches!(c.call(), Some(BufferCall::StreamOn(_))));
    c.reply(BufferReply::Done);
    assert!(c.streaming && matches!(c.phase, MmapPhase::Ready));
    c.restart_stream();
    c.reply(BufferReply::Done);
    c.reply(failed("gone"));
    assert!(matches!(&c.phase, MmapPhase::CallFailed(w) if w == "gone"));
    assert!(!c.streaming);
    assert!(c.stop().is_none());
}

#[test]
fn stopping_ends_a_running_stream_once() {
    let mut c = ready();
    c.start();
    c.reply(BufferReply::Done);
    assert!(matches!(c.stop(), Some(BufferCall::StreamOff([1, 0, 0, 0]))));
    assert!(c.stop().is_none());
    assert_eq!(c.frame_ready(-1), None);
    assert_eq!(c.frame_ready(0), Some(false));
    assert_eq!(c.frame_ready(1), Some(true));
    assert!(matches!(c.enqueue_buffer(1), BufferCall::QueueBuffer(b) if b[0] == 1));
}

#[test]
fn dequeued_frames_have_an_extent() {
    let c = ready();
    let mut block = [0u8; 88];
    write_u32(LE, &mut block, 0, 1);
    assert_eq!(c.dequeue_frame(&block), Ok((1, 65)));
    write_u32(LE, &mut block, 8, 10);
    assert_eq!(c.dequeue_frame(&block), Ok((1, 10)));
    write_u32(LE, &mut block, 8, 66);
    assert_eq!(c.dequeue_frame(&block), Ok((1, 65)));
    write_u32(LE, &mut block, 0, 2);
    assert_eq!(
        c.dequeue_frame(&block),
        Err("buffer index 2 out of range (have 2)".to_string())
    );
}

#[test]
fn jpeg_data_start_at_the_first_marker() {
    assert_eq!(jpeg_data(&[0, 0xff, 0xff, 0xd8, 1, 0xff, 0xd8]), &[0xff, 0xd8, 1, 0xff, 0xd8]);
    assert_eq!(jpeg_data(&[1, 2, 0xff]), &[1, 2, 0xff]);
    assert_eq!(jpeg_data(&[]), &[] as &[u8]);
}
