//! The monitor codec: framing, the three-case decode, the handshake,
//! and the send cursor.

use emulot::{
    decode_frame, find_newline, receive_step, take_frame, Command, ErrorKind, Execute,
    FrameOutcome, Guest, GuestConfig, HandshakePhase, HandshakeStep, ReceiveStep, Response,
    SendProgress, SendState, ShutdownWait, Status,
};

const GREETING: &str =
    "{\"QMP\": {\"version\": {\"qemu\": {\"major\": 8, \"minor\": 2, \"micro\": 0}, \"package\": \"qemu\"}, \"capabilities\": []}}\n";

#[test]
fn deserialize_empty_response() {
    let frame = b"{\"return\": {}}".to_vec();
    match decode_frame(&frame) {
        FrameOutcome::Frame(Response::Return(_)) => {},
        _ => panic!("Unexpect message"),
    }
}

#[test]
fn deserialize_non_empty_response() {
    let frame = b"{\"return\": {\"key\": \"value\"}}".to_vec();
    match decode_frame(&frame) {
        FrameOutcome::Frame(Response::Return(map)) => {
            assert_eq!(map.get("key"), Some(&String::from("value")));
        },
        _ => panic!("Unexpect message"),
    }
}

#[test]
fn greeting_frame_decodes() {
    let bytes = GREETING.as_bytes();
    match receive_step(&bytes) {
        ReceiveStep::Consume { n, outcome } => {
            assert_eq!(n, bytes.len());
            match outcome.unwrap() {
                Response::Greeting(greeting) => {
                    assert_eq!(greeting.version.qemu.major, 8);
                    assert_eq!(greeting.version.qemu.minor, 2);
                    assert_eq!(greeting.version.package, "qemu");
                    assert!(greeting.capabilities.is_empty());
                },
                _ => panic!("expected a greeting"),
            }
        },
        _ => panic!("expected a full frame"),
    }
}

#[test]
fn error_frame_resolves_as_qmp_error() {
    let bytes = b"{\"error\":{\"class\":\"CommandNotFound\",\"desc\":\"x\"}}\n";
    match receive_step(bytes) {
        ReceiveStep::Consume { n, outcome } => {
            assert_eq!(n, bytes.len());
            let err = outcome.unwrap_err();
            assert_eq!(err.kind(), ErrorKind::QMPError);
            assert_eq!(err.message(), "QMP CommandNotFound: x");
        },
        _ => panic!("expected a full frame"),
    }
}

#[test]
fn error_frame_defaults() {
    let bytes = b"{\"error\":{}}\n";
    match receive_step(bytes) {
        ReceiveStep::Consume { outcome, .. } => {
            let err = outcome.unwrap_err();
            assert_eq!(err.message(), "QMP Unknown: No description");
        },
        _ => panic!("expected a full frame"),
    }
}

#[test]
fn partial_frames_wait_for_the_delimiter() {
    let partial = b"{\"return\": {}";
    assert!(find_newline(partial).is_none());
    match receive_step(partial) {
        ReceiveStep::Pending => {},
        _ => panic!("an unterminated frame must suspend"),
    }
}

#[test]
fn frames_are_never_blended() {
    // Two frames buffered together: the first consume stops exactly at
    // the first delimiter, leaving the second frame untouched.
    let both = b"{\"return\": {}}\n{\"error\":{\"class\":\"X\",\"desc\":\"y\"}}\n";
    let (line, consumed) = take_frame(both).unwrap();
    assert_eq!(line, b"{\"return\": {}}".to_vec());
    assert_eq!(consumed, 15);
    let rest = &both[consumed..];
    match receive_step(rest) {
        ReceiveStep::Consume { outcome, .. } => {
            let err = outcome.unwrap_err();
            assert_eq!(err.message(), "QMP X: y");
        },
        _ => panic!("expected the second frame"),
    }
}

#[test]
fn commands_encode_canonically() {
    let capabilities = Command { execute: Execute::QmpCapabilities };
    assert_eq!(capabilities.encode(), b"{\"execute\":\"qmp_capabilities\"}".to_vec());
    let powerdown = Command { execute: Execute::SystemPowerDown };
    assert_eq!(powerdown.encode(), b"{\"execute\":\"system_powerdown\"}".to_vec());
}

#[test]
fn send_cursor_tracks_partial_writes() {
    let command = Command { execute: Execute::QmpCapabilities };
    let mut send = SendState::new(&command);
    let total = command.encode().len();
    assert!(!send.is_done());
    assert_eq!(send.remaining().len(), total);
    match send.advance(10).unwrap() {
        SendProgress::Pending => {},
        _ => panic!("ten bytes are not the whole command"),
    }
    assert_eq!(send.remaining().len(), total - 10);
    match send.advance(total - 10).unwrap() {
        SendProgress::Done => {},
        _ => panic!("the command should now be written in full"),
    }
    assert!(send.is_done());
}

#[test]
fn zero_length_write_fails_the_send() {
    let command = Command { execute: Execute::SystemPowerDown };
    let mut send = SendState::new(&command);
    let err = send.advance(0).unwrap_err();
    assert_eq!(err.kind(), ErrorKind::IOError);
    assert_eq!(err.message(), "No data written");
}

fn return_frame() -> Response {
    let frame = b"{\"return\": {}}".to_vec();
    match decode_frame(&frame) {
        FrameOutcome::Frame(r) => r,
        _ => panic!("expected a frame"),
    }
}

fn greeting_frame() -> Response {
    let frame = GREETING.trim_end().as_bytes().to_vec();
    match decode_frame(&frame) {
        FrameOutcome::Frame(r) => r,
        _ => panic!("expected a frame"),
    }
}

#[test]
fn handshake_accepts_greeting_then_return() {
    let greeting = greeting_frame();
    let (phase, step) = Guest::handshake_step(HandshakePhase::AwaitGreeting, &greeting).unwrap();
    assert_eq!(phase, HandshakePhase::AwaitReturn);
    match step {
        HandshakeStep::Send(command) => assert_eq!(command.execute, Execute::QmpCapabilities),
        _ => panic!("the handshake must negotiate capabilities"),
    }
    let answer = return_frame();
    let (phase, step) = Guest::handshake_step(HandshakePhase::AwaitReturn, &answer).unwrap();
    assert_eq!(phase, HandshakePhase::Complete);
    assert!(matches!(step, HandshakeStep::Done));
}

#[test]
fn handshake_rejects_out_of_order_frames() {
    let answer = return_frame();
    let err = Guest::handshake_step(HandshakePhase::AwaitGreeting, &answer).unwrap_err();
    assert_eq!(err.kind(), ErrorKind::IOError);
    assert_eq!(err.message(), "No greeting received.");
    let greeting = greeting_frame();
    let err = Guest::handshake_step(HandshakePhase::AwaitReturn, &greeting).unwrap_err();
    assert_eq!(err.kind(), ErrorKind::IOError);
    assert_eq!(err.message(), "Unexpected message received");
}

#[test]
fn shutdown_waits_past_events() {
    let greeting = greeting_frame();
    match Guest::shutdown_wait_step(greeting).unwrap() {
        ShutdownWait::Skip => {},
        _ => panic!("events are skipped"),
    }
    let answer = return_frame();
    match Guest::shutdown_wait_step(answer).unwrap() {
        ShutdownWait::Acknowledged(_) => {},
        _ => panic!("a return acknowledges the shutdown"),
    }
}

#[test]
fn lifecycle_exclusion() {
    let config = GuestConfig::new("x86_64".to_string(), 512);
    let mut guest = Guest::new(config, "/tmp/guests/1");
    assert_eq!(guest.status(false), Status::Stopped);

    // A stopped guest plans its spawn, with the monitor channel appended.
    let plan = guest.run_plan(false).unwrap();
    assert_eq!(plan.program, "qemu-system-x86_64");
    let tail = &plan.args[plan.args.len() - 4..];
    assert_eq!(
        tail,
        &[
            "-chardev".to_string(),
            "stdio,id=mon0".to_string(),
            "-mon".to_string(),
            "chardev=mon0,mode=control".to_string(),
        ],
    );

    // Once running, a second run is refused; after the child exits, a
    // second shutdown is refused.
    guest.run_commit();
    assert_eq!(guest.status(false), Status::Running);
    let err = guest.run_plan(false).unwrap_err();
    assert_eq!(err.kind(), ErrorKind::AlreadyRunning);
    let command = guest.shutdown_plan(false).unwrap();
    assert_eq!(command.execute, Execute::SystemPowerDown);
    let err = guest.shutdown_plan(true).unwrap_err();
    assert_eq!(err.kind(), ErrorKind::AlreadyStopped);
    assert_eq!(err.display_string(), "Already stopped.");

    guest.kill().unwrap();
    let err = guest.kill().unwrap_err();
    assert_eq!(err.kind(), ErrorKind::AlreadyStopped);
}
