use desktop_ipc::codec::encode;
use desktop_ipc::orchestrator::on_stdin_frame;
use desktop_ipc::orchestrator::StdinStep;

#[test]
fn ping_frame_is_forwarded_exactly_once() {
    let buffer = encode("ping");
    match on_stdin_frame(&buffer, false) {
        StdinStep::Forward(text, consumed) => {
            assert_eq!(text, "ping");
            assert_eq!(consumed, buffer.len());
            // The whole frame was consumed: nothing further to forward.
            assert!(matches!(on_stdin_frame(&buffer[consumed..], false), StdinStep::NeedMore));
        }
        _ => panic!("expected the text to be forwarded"),
    }
}

#[test]
fn empty_frame_is_transient_idle() {
    let buffer = encode("");
    assert!(matches!(on_stdin_frame(&buffer, false), StdinStep::Idle(4)));
}

#[test]
fn incomplete_frame_waits_for_more_input() {
    let buffer = [10, 0, 0, 0, b'a', b'b', b'c'];
    assert!(matches!(on_stdin_frame(&buffer, false), StdinStep::NeedMore));
}

#[test]
fn truncated_frame_at_end_of_input_is_fatal() {
    let buffer = [10, 0, 0, 0, b'a', b'b', b'c'];
    assert!(matches!(on_stdin_frame(&buffer, true), StdinStep::Exit));
}

#[test]
fn malformed_utf8_frame_is_fatal() {
    let buffer = [2, 0, 0, 0, 0xff, 0xfe];
    assert!(matches!(on_stdin_frame(&buffer, false), StdinStep::Exit));
}

#[test]
fn frames_are_decoded_in_sequence() {
    let mut buffer = encode("one");
    buffer.extend_from_slice(&encode("two"));
    match on_stdin_frame(&buffer, false) {
        StdinStep::Forward(text, consumed) => {
            assert_eq!(text, "one");
            match on_stdin_frame(&buffer[consumed..], false) {
                StdinStep::Forward(text2, consumed2) => {
                    assert_eq!(text2, "two");
                    assert_eq!(consumed + consumed2, buffer.len());
                }
                _ => panic!("expected the second frame to be forwarded"),
            }
        }
        _ => panic!("expected the first frame to be forwarded"),
    }
}
