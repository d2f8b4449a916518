use tetanux::classify::TargetError;
use tetanux::head::{HeadReader, HeadStatus, ParseError};
use tetanux::relay::{Ending, IoFailure, Relay, RelayAction, RelayEvent, RelayPhase};
use tetanux::session::{
    forward_next, next_step, tunnel_next, ConnectionError, Direction, ForwardAction, ForwardEvent,
    ForwardPhase, Step, TunnelAction, TunnelEvent, TunnelPhase,
};

fn step_of(bytes: &[u8]) -> Step {
    next_step(HeadReader::new().feed(bytes))
}

#[test]
fn step_refuses_post_with_405() {
    match step_of(b"POST http://h/ HTTP/1.1\r\nHost: h\r\n\r\n") {
        Step::Refuse(b) => assert_eq!(b, b"HTTP/1.1 405 Method Not Allowed\r\n\r\n".to_vec()),
        _ => panic!("expected a refusal"),
    }
}

#[test]
fn step_tunnel_forward_and_errors() {
    assert!(matches!(step_of(b"CONNECT h:443 HTTP/1.1\r\n\r\n"), Step::Tunnel(e) if e.host == "h" && e.port == 443));
    assert!(matches!(step_of(b"GET http://h:81/x HTTP/1.1\r\n\r\n"), Step::Forward(e, _) if e.host == "h" && e.port == 81));
    assert!(matches!(step_of(b"CONNECT h HTTP/1.1\r\n\r\n"), Step::Close(ConnectionError::Target(TargetError::InvalidTarget))));
    assert!(matches!(step_of(b"GET / HTTP/1.1"), Step::ReadMore));
    assert!(matches!(step_of(b"G\x01T / HTTP/1.1\r\n\r\n"), Step::Close(ConnectionError::Parse(ParseError::Malformed))));
    assert!(matches!(next_step(HeadStatus::Failed(ParseError::HeadersTooLarge)), Step::Close(ConnectionError::Parse(ParseError::HeadersTooLarge))));
}

fn drive(r: &mut Relay, e: RelayEvent) -> RelayAction {
    r.step(e)
}

#[test]
fn relay_copies_chunks_in_order_and_closes_on_eof() {
    let mut r = Relay::new();
    let mut sink: Vec<u8> = Vec::new();
    let source: Vec<Vec<u8>> = vec![b"hello ".to_vec(), vec![0, 255, 7], b"world".to_vec()];
    for chunk in source.iter() {
        assert_eq!(drive(&mut r, RelayEvent::Read(chunk.clone())), RelayAction::Write);
        assert_eq!(r.phase(), RelayPhase::Writing);
        sink.extend_from_slice(r.pending());
        assert_eq!(drive(&mut r, RelayEvent::Written), RelayAction::Read);
        assert!(r.pending().is_empty());
    }
    assert_eq!(sink, source.concat());
    assert_eq!(drive(&mut r, RelayEvent::Read(Vec::new())), RelayAction::Shutdown);
    assert_eq!(r.phase(), RelayPhase::Closing(Ending::Graceful));
    assert_eq!(drive(&mut r, RelayEvent::ShutDown), RelayAction::Finish(Ending::Graceful));
    assert_eq!(drive(&mut r, RelayEvent::Ready), RelayAction::Finish(Ending::Graceful));
}

#[test]
fn relay_waits_on_would_block() {
    let mut r = Relay::new();
    assert_eq!(drive(&mut r, RelayEvent::ReadFailed(IoFailure::WouldBlock)), RelayAction::AwaitReadable);
    assert_eq!(drive(&mut r, RelayEvent::Ready), RelayAction::Read);
    assert_eq!(drive(&mut r, RelayEvent::Read(b"x".to_vec())), RelayAction::Write);
    assert_eq!(drive(&mut r, RelayEvent::WriteFailed(IoFailure::WouldBlock)), RelayAction::AwaitWritable);
    assert_eq!(r.pending(), b"x");
    assert_eq!(drive(&mut r, RelayEvent::Ready), RelayAction::Write);
    assert_eq!(drive(&mut r, RelayEvent::Written), RelayAction::Read);
}

#[test]
fn relay_reset_and_other_failures_close() {
    let mut r = Relay::new();
    assert_eq!(drive(&mut r, RelayEvent::Read(b"x".to_vec())), RelayAction::Write);
    assert_eq!(drive(&mut r, RelayEvent::WriteFailed(IoFailure::Reset)), RelayAction::Shutdown);
    assert!(r.pending().is_empty());
    assert_eq!(drive(&mut r, RelayEvent::WriteFailed(IoFailure::Other)), RelayAction::Finish(Ending::Reset));

    let mut r = Relay::new();
    assert_eq!(drive(&mut r, RelayEvent::ReadFailed(IoFailure::Other)), RelayAction::Shutdown);
    assert_eq!(drive(&mut r, RelayEvent::Written), RelayAction::Shutdown);
    assert_eq!(drive(&mut r, RelayEvent::ShutDown), RelayAction::Finish(Ending::Failed));
}

#[test]
fn tunnel_sends_status_before_relaying_and_waits_for_both_directions() {
    let (p, a) = tunnel_next(TunnelPhase::Connecting, TunnelEvent::Connected);
    assert_eq!((p, a), (TunnelPhase::Established, TunnelAction::SendEstablished));
    let (p, a) = tunnel_next(p, TunnelEvent::DirectionEnded(Direction::ClientToTarget));
    assert_eq!((p, a), (TunnelPhase::Established, TunnelAction::Wait));
    let (p, a) = tunnel_next(p, TunnelEvent::ReplySent);
    assert_eq!(a, TunnelAction::StartRelays);
    let (p, a) = tunnel_next(p, TunnelEvent::DirectionEnded(Direction::TargetToClient));
    assert_eq!(
        (p, a),
        (
            TunnelPhase::Relaying { client_to_target_ended: false, target_to_client_ended: true },
            TunnelAction::Wait
        )
    );
    let (p, a) = tunnel_next(p, TunnelEvent::DirectionEnded(Direction::TargetToClient));
    assert_eq!(a, TunnelAction::Wait);
    let (p, a) = tunnel_next(p, TunnelEvent::DirectionEnded(Direction::ClientToTarget));
    assert_eq!((p, a), (TunnelPhase::Closed, TunnelAction::Finish));
}

#[test]
fn tunnel_connect_or_reply_failure_closes() {
    assert_eq!(
        tunnel_next(TunnelPhase::Connecting, TunnelEvent::ConnectFailed),
        (TunnelPhase::Closed, TunnelAction::Finish)
    );
    assert_eq!(
        tunnel_next(TunnelPhase::Established, TunnelEvent::ReplyFailed),
        (TunnelPhase::Closed, TunnelAction::Finish)
    );
}

#[test]
fn forward_phases() {
    let (p, a) = forward_next(ForwardPhase::Connecting, ForwardEvent::Connected);
    assert_eq!((p, a), (ForwardPhase::Sending, ForwardAction::SendRequest));
    let (p, a) = forward_next(p, ForwardEvent::RequestSent);
    assert_eq!((p, a), (ForwardPhase::Relaying, ForwardAction::RelayResponse));
    let (p, a) = forward_next(p, ForwardEvent::ResponseEnded);
    assert_eq!((p, a), (ForwardPhase::Closed, ForwardAction::Finish));
    assert_eq!(
        forward_next(ForwardPhase::Connecting, ForwardEvent::ConnectFailed),
        (ForwardPhase::Closed, ForwardAction::Finish)
    );
    assert_eq!(
        forward_next(ForwardPhase::Sending, ForwardEvent::SendFailed),
        (ForwardPhase::Closed, ForwardAction::Finish)
    );
    assert_eq!(forward_next(ForwardPhase::Sending, ForwardEvent::Connected), (ForwardPhase::Sending, ForwardAction::Wait));
}
