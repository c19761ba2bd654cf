use triggercd::forwarder::{ForwardError, ForwardStatus, ForwardStep, Forwarder, ReadOutcome};
use triggercd::frame::{StreamSource, MAX_CHUNK_SIZE, STDERR_CHUNK_PREFIX, STDOUT_CHUNK_PREFIX};

fn fill(forwarder: &mut Forwarder, bytes: &[u8]) -> ReadOutcome {
    forwarder.region()[..bytes.len()].copy_from_slice(bytes);
    ReadOutcome::Read(bytes.len())
}

#[test]
fn tags_and_chunk_size() {
    assert_eq!(STDOUT_CHUNK_PREFIX, 0);
    assert_eq!(STDERR_CHUNK_PREFIX, 1);
    assert_eq!(MAX_CHUNK_SIZE, 16 * 1024);
    assert_eq!(StreamSource::Stdout.tag(), 0);
    assert_eq!(StreamSource::Stderr.tag(), 1);
}

#[test]
fn fresh_forwarder_is_active_with_zeroed_region() {
    let mut forwarder = Forwarder::new(StreamSource::Stderr);
    assert_eq!(forwarder.source(), StreamSource::Stderr);
    assert_eq!(forwarder.status(), ForwardStatus::Active);
    assert!(!forwarder.stopped());
    let region = forwarder.region();
    assert_eq!(region.len(), MAX_CHUNK_SIZE);
    assert!(region.iter().all(|byte| *byte == 0));
}

#[test]
fn echo_hello_is_one_stdout_frame() {
    let mut stdout = Forwarder::new(StreamSource::Stdout);
    let mut stderr = Forwarder::new(StreamSource::Stderr);

    let outcome = fill(&mut stdout, b"hello\n");
    let step = stdout.on_read(outcome, false);
    assert_eq!(step, ForwardStep::Send(vec![0x00, b'h', b'e', b'l', b'l', b'o', b'\n']));
    assert_eq!(stdout.on_sent(true), ForwardStep::Read);
    assert_eq!(stdout.on_read(ReadOutcome::Read(0), true), ForwardStep::Finished);
    assert_eq!(stdout.status(), ForwardStatus::Finished);

    assert_eq!(stderr.on_read(ReadOutcome::Read(0), true), ForwardStep::Finished);
    assert!(stderr.stopped());
}

#[test]
fn silent_process_gives_no_frames() {
    for source in [StreamSource::Stdout, StreamSource::Stderr] {
        let mut forwarder = Forwarder::new(source);
        assert_eq!(forwarder.on_read(ReadOutcome::Read(0), false), ForwardStep::Read);
        assert_eq!(forwarder.on_read(ReadOutcome::Read(0), false), ForwardStep::Read);
        assert_eq!(forwarder.on_read(ReadOutcome::Read(0), true), ForwardStep::Finished);
        assert!(forwarder.stopped());
    }
}

#[test]
fn stderr_frames_carry_tag_one() {
    let mut forwarder = Forwarder::new(StreamSource::Stderr);
    let outcome = fill(&mut forwarder, b"oops");
    assert_eq!(
        forwarder.on_read(outcome, true),
        ForwardStep::Send(vec![0x01, b'o', b'o', b'p', b's'])
    );
    assert_eq!(forwarder.status(), ForwardStatus::Active);
}

#[test]
fn frame_holds_only_the_bytes_read() {
    let mut forwarder = Forwarder::new(StreamSource::Stdout);
    forwarder.region()[..8].copy_from_slice(b"abcdefgh");
    assert_eq!(
        forwarder.on_read(ReadOutcome::Read(3), false),
        ForwardStep::Send(vec![0x00, b'a', b'b', b'c'])
    );
}

#[test]
fn consumed_region_is_zeroed() {
    let mut forwarder = Forwarder::new(StreamSource::Stdout);
    forwarder.region()[..8].copy_from_slice(b"abcdefgh");
    let _ = forwarder.on_read(ReadOutcome::Read(3), false);
    let region = forwarder.region();
    assert_eq!(&region[..8], &[0, 0, 0, b'd', b'e', b'f', b'g', b'h']);
    assert_eq!(region.len(), MAX_CHUNK_SIZE);
}

#[test]
fn single_byte_chunk() {
    let mut forwarder = Forwarder::new(StreamSource::Stdout);
    let outcome = fill(&mut forwarder, b"x");
    assert_eq!(forwarder.on_read(outcome, false), ForwardStep::Send(vec![0x00, b'x']));
}

#[test]
fn full_chunk_fits_one_frame() {
    let mut forwarder = Forwarder::new(StreamSource::Stderr);
    let bytes: Vec<u8> = (0..MAX_CHUNK_SIZE).map(|i| (i % 251) as u8 + 1).collect();
    let outcome = fill(&mut forwarder, &bytes);
    match forwarder.on_read(outcome, false) {
        ForwardStep::Send(frame) => {
            assert_eq!(frame.len(), MAX_CHUNK_SIZE + 1);
            assert_eq!(frame[0], 1);
            assert_eq!(&frame[1..], &bytes[..]);
        }
        other => panic!("expected a frame, got {:?}", other),
    }
    assert!(forwarder.region().iter().all(|byte| *byte == 0));
}

#[test]
fn payloads_reassemble_the_stream() {
    let chunks: [&[u8]; 5] = [b"one ", b"", b"two ", b"three", b""];
    let mut forwarder = Forwarder::new(StreamSource::Stdout);
    let mut received: Vec<u8> = Vec::new();
    let mut frames = 0;
    for chunk in chunks {
        let outcome = fill(&mut forwarder, chunk);
        match forwarder.on_read(outcome, false) {
            ForwardStep::Send(frame) => {
                assert_eq!(frame[0], 0);
                assert!(frame.len() >= 2 && frame.len() <= MAX_CHUNK_SIZE + 1);
                received.extend_from_slice(&frame[1..]);
                frames += 1;
                assert_eq!(forwarder.on_sent(true), ForwardStep::Read);
            }
            ForwardStep::Read => assert!(chunk.is_empty()),
            other => panic!("unexpected step {:?}", other),
        }
    }
    assert_eq!(frames, 3);
    assert_eq!(received, b"one two three".to_vec());
}

#[test]
fn interleaved_streams_are_told_apart_by_tag() {
    let mut stdout = Forwarder::new(StreamSource::Stdout);
    let mut stderr = Forwarder::new(StreamSource::Stderr);
    let script: [(bool, &[u8]); 5] =
        [(true, b"a"), (false, b"X"), (false, b"Y"), (true, b"bc"), (false, b"Z")];
    let mut sent: Vec<Vec<u8>> = Vec::new();
    for (to_stdout, chunk) in script {
        let forwarder = if to_stdout { &mut stdout } else { &mut stderr };
        let outcome = fill(forwarder, chunk);
        if let ForwardStep::Send(frame) = forwarder.on_read(outcome, false) {
            sent.push(frame);
        }
    }
    let gather = |tag: u8| -> Vec<u8> {
        sent.iter().filter(|frame| frame[0] == tag).flat_map(|frame| frame[1..].to_vec()).collect()
    };
    assert_eq!(sent.len(), 5);
    assert_eq!(gather(0), b"abc".to_vec());
    assert_eq!(gather(1), b"XYZ".to_vec());
    assert!(sent.iter().all(|frame| frame[0] == 0 || frame[0] == 1));
}

#[test]
fn empty_read_before_exit_keeps_reading() {
    let mut forwarder = Forwarder::new(StreamSource::Stdout);
    assert_eq!(forwarder.on_read(ReadOutcome::Read(0), false), ForwardStep::Read);
    assert_eq!(forwarder.status(), ForwardStatus::Active);
}

#[test]
fn data_after_exit_is_still_forwarded() {
    let mut forwarder = Forwarder::new(StreamSource::Stdout);
    let outcome = fill(&mut forwarder, b"tail");
    assert_eq!(
        forwarder.on_read(outcome, true),
        ForwardStep::Send(vec![0x00, b't', b'a', b'i', b'l'])
    );
    assert_eq!(forwarder.on_sent(true), ForwardStep::Read);
    assert_eq!(forwarder.on_read(ReadOutcome::Read(0), true), ForwardStep::Finished);
}

#[test]
fn read_failure_stops_with_pipe_error() {
    let mut forwarder = Forwarder::new(StreamSource::Stdout);
    assert_eq!(
        forwarder.on_read(ReadOutcome::Failed, false),
        ForwardStep::Failed(ForwardError::Pipe)
    );
    assert_eq!(forwarder.status(), ForwardStatus::Failed(ForwardError::Pipe));
    assert!(forwarder.stopped());
}

#[test]
fn send_failure_stops_with_sink_error() {
    let mut forwarder = Forwarder::new(StreamSource::Stderr);
    let outcome = fill(&mut forwarder, b"data");
    let _ = forwarder.on_read(outcome, false);
    assert_eq!(forwarder.on_sent(false), ForwardStep::Failed(ForwardError::Sink));
    assert_eq!(forwarder.status(), ForwardStatus::Failed(ForwardError::Sink));
}

#[test]
fn stopped_forwarder_emits_nothing_more() {
    let mut finished = Forwarder::new(StreamSource::Stdout);
    let _ = finished.on_read(ReadOutcome::Read(0), true);
    let outcome = fill(&mut finished, b"late");
    assert_eq!(finished.on_read(outcome, false), ForwardStep::Finished);
    assert_eq!(finished.on_sent(false), ForwardStep::Finished);
    assert_eq!(finished.on_read(ReadOutcome::Failed, true), ForwardStep::Finished);
    assert_eq!(finished.status(), ForwardStatus::Finished);

    let mut failed = Forwarder::new(StreamSource::Stdout);
    let _ = failed.on_read(ReadOutcome::Failed, false);
    let outcome = fill(&mut failed, b"late");
    assert_eq!(failed.on_read(outcome, true), ForwardStep::Failed(ForwardError::Pipe));
    assert_eq!(failed.on_sent(true), ForwardStep::Failed(ForwardError::Pipe));
    assert_eq!(failed.on_read(ReadOutcome::Read(0), true), ForwardStep::Failed(ForwardError::Pipe));
}
