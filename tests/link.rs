use dlt645::{step, Error, LinkAction, LinkEvent, LinkState, ProtocolDataUnit};

#[test]
fn send_on_closed_link_fails_at_once() {
    let (s, a) = step(LinkState::Closed, LinkEvent::SendRequested);
    assert_eq!(s, LinkState::Closed);
    assert!(matches!(a, LinkAction::Reply(Err(Error::NotOpen))));
}

#[test]
fn exchange_writes_then_reads() {
    let (s, a) = step(LinkState::Closed, LinkEvent::Opened);
    assert_eq!(s, LinkState::Open);
    assert!(matches!(a, LinkAction::Nothing));
    let (s, a) = step(s, LinkEvent::SendRequested);
    assert_eq!(s, LinkState::Writing);
    assert!(matches!(a, LinkAction::Write));
    let (s, a) = step(s, LinkEvent::Written);
    assert_eq!(s, LinkState::Reading);
    assert!(matches!(a, LinkAction::Read));
    let pdu = ProtocolDataUnit::read_addr().unwrap();
    let (s, a) = step(s, LinkEvent::Received(pdu));
    assert_eq!(s, LinkState::Open);
    match a {
        LinkAction::Reply(Ok(Some(p))) => assert_eq!(p.c(), 0x13),
        other => panic!("unexpected {:?}", other),
    }
}

#[test]
fn write_timeout_skips_the_read() {
    let (s, a) = step(LinkState::Writing, LinkEvent::WriteTimedOut);
    assert_eq!(s, LinkState::Open);
    assert!(matches!(a, LinkAction::Reply(Err(Error::Timeout))));
}

#[test]
fn read_timeout_after_write_keeps_link_open() {
    let (s, _) = step(LinkState::Open, LinkEvent::SendRequested);
    let (s, _) = step(s, LinkEvent::Written);
    let (s, a) = step(s, LinkEvent::ReadTimedOut);
    assert_eq!(s, LinkState::Open);
    assert!(matches!(a, LinkAction::Reply(Err(Error::Timeout))));
}

#[test]
fn stream_end_and_failures_end_the_exchange() {
    let (s, a) = step(LinkState::Reading, LinkEvent::Ended);
    assert_eq!(s, LinkState::Open);
    assert!(matches!(a, LinkAction::Reply(Ok(None))));
    let (_, a) = step(LinkState::Reading, LinkEvent::ReadFailed(Error::Protocol(7)));
    assert!(matches!(a, LinkAction::Reply(Err(Error::Protocol(7)))));
    let (s, a) = step(
        LinkState::Writing,
        LinkEvent::WriteFailed(Error::Connection("broken pipe".to_string())),
    );
    assert_eq!(s, LinkState::Open);
    assert!(matches!(a, LinkAction::Reply(Err(Error::Connection(_)))));
}

#[test]
fn close_is_idempotent_and_reopen_allowed() {
    let (s, _) = step(LinkState::Open, LinkEvent::Closed);
    assert_eq!(s, LinkState::Closed);
    let (s, a) = step(s, LinkEvent::Closed);
    assert_eq!(s, LinkState::Closed);
    assert!(matches!(a, LinkAction::Nothing));
    let (s, _) = step(s, LinkEvent::Opened);
    assert_eq!(s, LinkState::Open);
}

#[test]
fn events_out_of_phase_do_nothing() {
    let (s, a) = step(LinkState::Open, LinkEvent::Written);
    assert_eq!(s, LinkState::Open);
    assert!(matches!(a, LinkAction::Nothing));
    let (s, a) = step(LinkState::Writing, LinkEvent::ReadTimedOut);
    assert_eq!(s, LinkState::Writing);
    assert!(matches!(a, LinkAction::Nothing));
}

#[test]
fn abandoned_exchange_returns_to_open() {
    let (s, a) = step(LinkState::Reading, LinkEvent::Abandoned);
    assert_eq!(s, LinkState::Open);
    assert!(matches!(a, LinkAction::Nothing));
    let (s, _) = step(LinkState::Writing, LinkEvent::Abandoned);
    assert_eq!(s, LinkState::Open);
    let (s, _) = step(LinkState::Closed, LinkEvent::Abandoned);
    assert_eq!(s, LinkState::Closed);
}
