use subterminal::{EchoAll, EchoError, EchoReply, EchoStep};

#[test]
fn plain_echo_reports_nothing() {
    let (mut s, step) = EchoAll::new(b"hello");
    assert!(matches!(step, EchoStep::Echo(0)));
    assert!(matches!(s.step(EchoReply::Echoed(2, None)), EchoStep::Echo(2)));
    assert!(matches!(s.step(EchoReply::Interrupted), EchoStep::Echo(2)));
    assert!(matches!(s.step(EchoReply::Echoed(3, None)), EchoStep::Done(None)));
}

#[test]
fn replaced_echo_is_reported() {
    let (mut s, _) = EchoAll::new(b"\x1b[A");
    match s.step(EchoReply::Echoed(3, Some(b"^[[A".to_vec()))) {
        EchoStep::Done(Some(v)) => assert_eq!(v, b"^[[A".to_vec()),
        _ => panic!("the echo differs from the buffer"),
    }
}

#[test]
fn replacement_equal_to_buffer_reports_nothing() {
    let (mut s, _) = EchoAll::new(b"ab");
    assert!(matches!(s.step(EchoReply::Echoed(1, Some(b"a".to_vec()))), EchoStep::Echo(1)));
    assert!(matches!(s.step(EchoReply::Echoed(1, None)), EchoStep::Done(None)));
}

#[test]
fn empty_buffer_is_done_at_once() {
    let (_, step) = EchoAll::new(b"");
    assert!(matches!(step, EchoStep::Done(None)));
}

#[test]
fn zero_write_means_closed() {
    let (mut s, _) = EchoAll::new(b"x");
    assert!(matches!(s.step(EchoReply::Echoed(0, None)), EchoStep::Fail(EchoError::WriteZero)));
}

#[test]
fn errors_are_passed_on() {
    let (mut s, _) = EchoAll::new(b"x");
    let e = std::io::Error::new(std::io::ErrorKind::BrokenPipe, "gone");
    match s.step(EchoReply::Failed(e)) {
        EchoStep::Fail(EchoError::Io(e)) => assert_eq!(e.kind(), std::io::ErrorKind::BrokenPipe),
        _ => panic!("the error must be passed on"),
    }
}
