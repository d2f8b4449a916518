//! The life of one client connection: what to do once the request head has
//! been read, and the phases of a tunnel and of a forwarded request. The
//! caller performs each action and hands back what came of it.
use vstd::prelude::*;
use crate::classify::{classified, method_is, classify, not_allowed_reply, not_allowed_reply_bytes, Endpoint, Intent, TargetError};
use crate::head::{HeadStatus, ParseError, RequestHead};

verus! {

/// Why a connection is closed without a reply.
#[derive(PartialEq, Eq, Structural, Clone, Copy, Debug)]
pub enum ConnectionError {
    Parse(ParseError),
    Target(TargetError),
}

/// What a connection does once reading its head stands where it stands.
pub enum Step {
    /// Read more bytes from the client.
    ReadMore,
    /// Open a tunnel to the endpoint.
    Tunnel(Endpoint),
    /// Send the request bytes to the endpoint and relay the response.
    Forward(Endpoint, Vec<u8>),
    /// Send these bytes to the client, then close.
    Refuse(Vec<u8>),
    /// Close the connection without a reply.
    Close(ConnectionError),
}

/// `r` is the step for a connection whose head reading stands at `status`.
pub open spec fn step_for(status: HeadStatus, r: Step) -> bool {
    match status {
        HeadStatus::Incomplete => r is ReadMore,
        HeadStatus::Failed(e) => r == Step::Close(ConnectionError::Parse(e)),
        HeadStatus::Parsed(h, _) => match r {
            Step::Tunnel(e) => classified(h, Ok(Intent::Tunnel(e))),
            Step::Forward(e, q) => classified(h, Ok(Intent::Forward(e, q))),
            Step::Refuse(b) => classified(h, Ok(Intent::Reject)) && b@ == not_allowed_reply_bytes(),
            Step::Close(ConnectionError::Target(t)) => classified(h, Err(t)),
            _ => false,
        },
    }
}

/// Decides what a connection does next; see `step_for`.
pub fn next_step(status: HeadStatus) -> (r: Step)
    ensures
        step_for(status, r),
{
    match status {
        HeadStatus::Incomplete => Step::ReadMore,
        HeadStatus::Failed(e) => Step::Close(ConnectionError::Parse(e)),
        HeadStatus::Parsed(h, _) => match classify(&h) {
            Ok(Intent::Tunnel(e)) => Step::Tunnel(e),
            Ok(Intent::Forward(e, q)) => Step::Forward(e, q),
            Ok(Intent::Reject) => Step::Refuse(not_allowed_reply()),
            Err(t) => Step::Close(ConnectionError::Target(t)),
        },
    }
}

/// Every method other than `CONNECT` and `GET` is refused with exactly the
/// "405 Method Not Allowed" status line, after which the connection closes.
pub proof fn lemma_other_methods_refused(h: RequestHead, n: usize, r: Step)
    requires
        step_for(HeadStatus::Parsed(h, n), r),
        !method_is(h, "CONNECT"@),
        !method_is(h, "GET"@),
    ensures
        r matches Step::Refuse(b) && b@ == not_allowed_reply_bytes(),
{
}

/// One of the two relay directions of a tunnel.
#[derive(PartialEq, Eq, Structural, Clone, Copy, Debug)]
pub enum Direction {
    ClientToTarget,
    TargetToClient,
}

/// Where a tunnel stands.
#[derive(PartialEq, Eq, Structural, Clone, Copy, Debug)]
pub enum TunnelPhase {
    /// Opening the connection to the target.
    Connecting,
    /// Connected; the status line for the client is on its way.
    Established,
    /// Both directions relay; each flag says whether that direction has ended.
    Relaying { client_to_target_ended: bool, target_to_client_ended: bool },
    /// Both directions have ended, or the tunnel never opened.
    Closed,
}

/// What came of a tunnel's last action.
#[derive(PartialEq, Eq, Structural, Clone, Copy, Debug)]
pub enum TunnelEvent {
    Connected,
    ConnectFailed,
    /// The status line was written whole and flushed.
    ReplySent,
    ReplyFailed,
    /// The relay of that direction has finished.
    DirectionEnded(Direction),
}

/// What the caller does next with a tunnel.
#[derive(PartialEq, Eq, Structural, Clone, Copy, Debug)]
pub enum TunnelAction {
    /// Write and flush the "connection established" status line to the client.
    SendEstablished,
    /// Split both sockets and start one relay per direction, each on its own.
    StartRelays,
    /// Nothing: wait for the other direction.
    Wait,
    /// Release every socket of the connection.
    Finish,
}

/// One step of a tunnel. The status line goes out before any relay starts;
/// a direction that ends ends only itself, and the tunnel closes once both
/// have ended; a failure before relaying closes it at once.
pub open spec fn tunnel_step(old: TunnelPhase, e: TunnelEvent, new: TunnelPhase, a: TunnelAction) -> bool {
    match (old, e) {
        (TunnelPhase::Connecting, TunnelEvent::Connected) => new == TunnelPhase::Established && a
            == TunnelAction::SendEstablished,
        (TunnelPhase::Connecting, TunnelEvent::ConnectFailed) => new == TunnelPhase::Closed && a
            == TunnelAction::Finish,
        (TunnelPhase::Established, TunnelEvent::ReplySent) => new == (TunnelPhase::Relaying {
            client_to_target_ended: false,
            target_to_client_ended: false,
        }) && a == TunnelAction::StartRelays,
        (TunnelPhase::Established, TunnelEvent::ReplyFailed) => new == TunnelPhase::Closed && a
            == TunnelAction::Finish,
        (
            TunnelPhase::Relaying { client_to_target_ended: c, target_to_client_ended: t },
            TunnelEvent::DirectionEnded(d),
        ) => {
            let c2 = c || d == Direction::ClientToTarget;
            let t2 = t || d == Direction::TargetToClient;
            if c2 && t2 {
                new == TunnelPhase::Closed && a == TunnelAction::Finish
            } else {
                new == (TunnelPhase::Relaying {
                    client_to_target_ended: c2,
                    target_to_client_ended: t2,
                }) && a == TunnelAction::Wait
            }
        },
        (TunnelPhase::Closed, _) => new == old && a == TunnelAction::Finish,
        _ => new == old && a == TunnelAction::Wait,
    }
}

/// Moves a tunnel on; see `tunnel_step`.
pub fn tunnel_next(phase: TunnelPhase, event: TunnelEvent) -> (r: (TunnelPhase, TunnelAction))
    ensures
        tunnel_step(phase, event, r.0, r.1),
{
    match (phase, event) {
        (TunnelPhase::Connecting, TunnelEvent::Connected) => (
            TunnelPhase::Established,
            TunnelAction::SendEstablished,
        ),
        (TunnelPhase::Connecting, TunnelEvent::ConnectFailed) => (
            TunnelPhase::Closed,
            TunnelAction::Finish,
        ),
        (TunnelPhase::Established, TunnelEvent::ReplySent) => (
            TunnelPhase::Relaying { client_to_target_ended: false, target_to_client_ended: false },
            TunnelAction::StartRelays,
        ),
        (TunnelPhase::Established, TunnelEvent::ReplyFailed) => (
            TunnelPhase::Closed,
            TunnelAction::Finish,
        ),
        (
            TunnelPhase::Relaying { client_to_target_ended: c, target_to_client_ended: t },
            TunnelEvent::DirectionEnded(d),
        ) => {
            let c2 = c || d == Direction::ClientToTarget;
            let t2 = t || d == Direction::TargetToClient;
            if c2 && t2 {
                (TunnelPhase::Closed, TunnelAction::Finish)
            } else {
                (
                    TunnelPhase::Relaying { client_to_target_ended: c2, target_to_client_ended: t2 },
                    TunnelAction::Wait,
                )
            }
        },
        (TunnelPhase::Closed, _) => (TunnelPhase::Closed, TunnelAction::Finish),
        _ => (phase, TunnelAction::Wait),
    }
}

/// The end of one direction of a relaying tunnel leaves the other direction
/// as it was and aborts nothing: the tunnel waits, and it closes only when
/// the second direction has ended too.
pub proof fn lemma_half_close(c: bool, t: bool, d: Direction, new: TunnelPhase, a: TunnelAction)
    requires
        tunnel_step(
            TunnelPhase::Relaying { client_to_target_ended: c, target_to_client_ended: t },
            TunnelEvent::DirectionEnded(d),
            new,
            a,
        ),
    ensures
        d == Direction::TargetToClient && !c ==> new == (TunnelPhase::Relaying {
            client_to_target_ended: false,
            target_to_client_ended: true,
        }) && a == TunnelAction::Wait,
        d == Direction::ClientToTarget && !t ==> new == (TunnelPhase::Relaying {
            client_to_target_ended: true,
            target_to_client_ended: false,
        }) && a == TunnelAction::Wait,
        (new == TunnelPhase::Closed) == ((c || d == Direction::ClientToTarget) && (t || d
            == Direction::TargetToClient)),
        a != TunnelAction::StartRelays && a != TunnelAction::SendEstablished,
{
}

/// No tunnel relays a byte before the status line has been sent: the only
/// step into relaying is the one that follows its sending.
pub proof fn lemma_reply_first(old: TunnelPhase, e: TunnelEvent, new: TunnelPhase, a: TunnelAction)
    requires
        tunnel_step(old, e, new, a),
        !(old is Relaying),
        new is Relaying || a == TunnelAction::StartRelays,
    ensures
        old == TunnelPhase::Established,
        e == TunnelEvent::ReplySent,
        a == TunnelAction::StartRelays,
{
}

/// Where a forwarded request stands.
#[derive(PartialEq, Eq, Structural, Clone, Copy, Debug)]
pub enum ForwardPhase {
    /// Opening the connection to the origin.
    Connecting,
    /// Sending the rewritten request.
    Sending,
    /// Relaying the origin's response to the client.
    Relaying,
    /// Over.
    Closed,
}

/// What came of a forwarded request's last action.
#[derive(PartialEq, Eq, Structural, Clone, Copy, Debug)]
pub enum ForwardEvent {
    Connected,
    ConnectFailed,
    /// The request was written whole and flushed.
    RequestSent,
    SendFailed,
    /// The relay of the response has finished.
    ResponseEnded,
}

/// What the caller does next with a forwarded request.
#[derive(PartialEq, Eq, Structural, Clone, Copy, Debug)]
pub enum ForwardAction {
    /// Write and flush the rewritten request to the origin.
    SendRequest,
    /// Relay the origin's read half to the client's write half.
    RelayResponse,
    /// Shut down the write side of the origin connection, then release the
    /// client's write half and every socket.
    Finish,
    Wait,
}

/// One step of a forwarded request: connect, send, relay the response, finish;
/// a failure to connect or to send finishes at once.
pub open spec fn forward_step(old: ForwardPhase, e: ForwardEvent, new: ForwardPhase, a: ForwardAction) -> bool {
    match (old, e) {
        (ForwardPhase::Connecting, ForwardEvent::Connected) => new == ForwardPhase::Sending && a
            == ForwardAction::SendRequest,
        (ForwardPhase::Connecting, ForwardEvent::ConnectFailed) => new == ForwardPhase::Closed && a
            == ForwardAction::Finish,
        (ForwardPhase::Sending, ForwardEvent::RequestSent) => new == ForwardPhase::Relaying && a
            == ForwardAction::RelayResponse,
        (ForwardPhase::Sending, ForwardEvent::SendFailed) => new == ForwardPhase::Closed && a
            == ForwardAction::Finish,
        (ForwardPhase::Relaying, ForwardEvent::ResponseEnded) => new == ForwardPhase::Closed && a
            == ForwardAction::Finish,
        (ForwardPhase::Closed, _) => new == old && a == ForwardAction::Finish,
        _ => new == old && a == ForwardAction::Wait,
    }
}

/// Moves a forwarded request on; see `forward_step`.
pub fn forward_next(phase: ForwardPhase, event: ForwardEvent) -> (r: (ForwardPhase, ForwardAction))
    ensures
        forward_step(phase, event, r.0, r.1),
{
    match (phase, event) {
        (ForwardPhase::Connecting, ForwardEvent::Connected) => (
            ForwardPhase::Sending,
            ForwardAction::SendRequest,
        ),
        (ForwardPhase::Connecting, ForwardEvent::ConnectFailed) => (
            ForwardPhase::Closed,
            ForwardAction::Finish,
        ),
        (ForwardPhase::Sending, ForwardEvent::RequestSent) => (
            ForwardPhase::Relaying,
            ForwardAction::RelayResponse,
        ),
        (ForwardPhase::Sending, ForwardEvent::SendFailed) => (
            ForwardPhase::Closed,
            ForwardAction::Finish,
        ),
        (ForwardPhase::Relaying, ForwardEvent::ResponseEnded) => (
            ForwardPhase::Closed,
            ForwardAction::Finish,
        ),
        (ForwardPhase::Closed, _) => (ForwardPhase::Closed, ForwardAction::Finish),
        _ => (phase, ForwardAction::Wait),
    }
}

} // verus!
