use flipper_rpc::error::FlipperError;
use flipper_rpc::transport::serial::{
    find_subsequence, InitStep, SerialFrameReceiver, SerialFrameSender, SerialTransport,
    SessionState,
};
use flipper_rpc::transport::{FlipperFrameReceiver, FlipperFrameSender, FlipperTransport};

fn ready_transport() -> SerialTransport {
    let mut t = SerialTransport::new("/dev/ttyACM0");
    t.begin_init();
    match t.init_feed(b"\n>: ") {
        InitStep::SendCommand(cmd) => assert_eq!(cmd, b"start_rpc_session\r".to_vec()),
        other => panic!("expected SendCommand, got {:?}", step_name(&other)),
    }
    assert!(matches!(t.init_feed(b"start_rpc_session\r\n"), InitStep::Complete));
    t
}

fn step_name(step: &InitStep) -> &'static str {
    match step {
        InitStep::Pending => "Pending",
        InitStep::SendCommand(_) => "SendCommand",
        InitStep::Complete => "Complete",
    }
}

#[test]
fn find_subsequence_basics() {
    assert_eq!(find_subsequence(b"hello world", b"o w"), Some(4));
    assert_eq!(find_subsequence(b"hello world", b"xyz"), None);
    assert_eq!(find_subsequence(b"aaab", b"ab"), Some(2));
    assert_eq!(find_subsequence(b"abc", b""), Some(0));
    assert_eq!(find_subsequence(b"ab", b"abc"), None);
}

#[test]
fn handshake_completes_when_prompt_arrives() {
    // Arbitrary noise first, then the prompt, chunked arbitrarily.
    let mut t = SerialTransport::new("COM1");
    t.begin_init();
    assert_eq!(t.state, SessionState::AwaitingPrompt);
    assert!(matches!(t.init_feed(b"boot log line one"), InitStep::Pending));
    assert!(matches!(t.init_feed(b"more noise"), InitStep::Pending));
    // The prompt split across two reads still matches via the window.
    assert!(matches!(t.init_feed(b"\n>"), InitStep::Pending));
    match t.init_feed(b": ") {
        InitStep::SendCommand(cmd) => assert_eq!(cmd, b"start_rpc_session\r".to_vec()),
        other => panic!("expected SendCommand, got {}", step_name(&other)),
    }
    assert_eq!(t.state, SessionState::AwaitingEcho);

    // Echo split across reads, with shell noise in front.
    assert!(matches!(t.init_feed(b"start_rpc"), InitStep::Pending));
    assert!(matches!(t.init_feed(b"_session\r"), InitStep::Pending));
    assert!(matches!(t.init_feed(b"\n"), InitStep::Complete));
    assert_eq!(t.state, SessionState::Ready);
}

#[test]
fn handshake_ignores_noise_longer_than_window() {
    let mut t = SerialTransport::new("COM1");
    t.begin_init();
    let noise = vec![b'x'; 500];
    assert!(matches!(t.init_feed(&noise), InitStep::Pending));
    assert!(matches!(t.init_feed(&noise), InitStep::Pending));
    assert!(matches!(t.init_feed(b"\n>: "), InitStep::SendCommand(_)));
}

#[test]
fn handshake_completes_on_the_read_holding_the_pattern() {
    // The prompt buried inside one large read still completes init.
    let mut t = SerialTransport::new("COM1");
    t.begin_init();
    let mut chunk = b"some shell banner\n>: ".to_vec();
    chunk.extend_from_slice(b"trailing");
    assert!(matches!(t.init_feed(&chunk), InitStep::SendCommand(_)));
}

#[test]
fn handshake_does_not_fire_without_the_pattern() {
    let mut t = SerialTransport::new("COM1");
    t.begin_init();
    // Fragments of the prompt that never complete it.
    for _ in 0..100 {
        assert!(matches!(t.init_feed(b"\n>:x"), InitStep::Pending));
    }
    assert_eq!(t.state, SessionState::AwaitingPrompt);
}

#[test]
fn frame_io_after_handshake() {
    let mut t = ready_transport();
    let wire = t.write_frame(&[0x08, 0x02, 0x82, 0x02, 0x00]).unwrap();
    assert_eq!(wire, vec![0x05, 0x08, 0x02, 0x82, 0x02, 0x00]);

    assert_eq!(t.read_frame(&[0x02, 0xAA]).unwrap(), None);
    assert_eq!(t.read_frame(&[0xBB]).unwrap(), Some(vec![0xAA, 0xBB]));
}

#[test]
fn write_frame_rejects_oversize() {
    let mut t = ready_transport();
    let body = vec![0u8; 2000];
    match t.write_frame(&body) {
        Err(FlipperError::DataTooLarge(len)) => assert_eq!(len, 2000),
        other => panic!("expected DataTooLarge, got {:?}", other),
    }
}

#[test]
fn split_halves_work_independently() {
    // Interleave sends and receives; each half progresses according to
    // its own data alone.
    let t = ready_transport();
    let (mut rx, mut tx): (SerialFrameReceiver, SerialFrameSender) = t.split_stream();

    let w1 = tx.write_frame(&[1, 2, 3]).unwrap();
    assert_eq!(rx.read_frame(&[0x02, 0xAA]).unwrap(), None);
    let w2 = tx.write_frame(&[]).unwrap();
    assert_eq!(rx.read_frame(&[0xBB]).unwrap(), Some(vec![0xAA, 0xBB]));
    let w3 = tx.write_frame(&[9]).unwrap();

    assert_eq!(w1, vec![3, 1, 2, 3]);
    assert_eq!(w2, vec![0]);
    assert_eq!(w3, vec![1, 9]);
}

#[test]
fn split_starts_with_fresh_framing_state() {
    // Bytes half-decoded before the split do not leak into the halves.
    let mut t = ready_transport();
    assert_eq!(t.read_frame(&[0x05, 0x01]).unwrap(), None);
    let (mut rx, _tx) = t.split_stream();
    // A fresh receiver: this chunk is a whole frame on its own.
    assert_eq!(rx.read_frame(&[0x01, 0x42]).unwrap(), Some(vec![0x42]));
}
