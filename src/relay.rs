//! The relay primitive, as a state machine: it copies the bytes of one
//! readable half to one writable half, chunk by chunk, and closes its side of
//! the sink when the source ends or fails. The caller performs each action
//! and hands back what came of it.
use vstd::prelude::*;

verus! {

/// The most bytes a relay reads at once.
pub const CHUNK_SIZE: usize = 10240;

/// How a read, write or shutdown failed.
#[derive(PartialEq, Eq, Structural, Clone, Copy, Debug)]
pub enum IoFailure {
    /// The socket is not ready; wait for readiness and try again.
    WouldBlock,
    /// The peer reset the connection.
    Reset,
    /// Any other failure.
    Other,
}

/// How a relay direction ended.
#[derive(PartialEq, Eq, Structural, Clone, Copy, Debug)]
pub enum Ending {
    /// The source reached end of stream.
    Graceful,
    /// A peer reset the connection.
    Reset,
    /// Another failure.
    Failed,
}

/// Where a relay direction stands.
#[derive(PartialEq, Eq, Structural, Clone, Copy, Debug)]
pub enum RelayPhase {
    /// Waiting for bytes from the source.
    Reading,
    /// Handing the pending chunk to the sink.
    Writing,
    /// Closing the relay's side of the sink.
    Closing(Ending),
    /// Over.
    Done(Ending),
}

/// What came of the last action.
pub enum RelayEvent {
    /// A read returned these bytes; none means end of stream.
    Read(Vec<u8>),
    ReadFailed(IoFailure),
    /// The pending chunk was written whole and flushed.
    Written,
    WriteFailed(IoFailure),
    /// The sink's write side was shut down (or could not be, which ends the
    /// relay the same way).
    ShutDown,
    /// The socket that was not ready has become ready.
    Ready,
}

/// What the caller does next.
#[derive(PartialEq, Eq, Structural, Clone, Copy, Debug)]
pub enum RelayAction {
    /// Read up to `CHUNK_SIZE` bytes from the source.
    Read,
    /// Write the pending chunk whole to the sink, then flush.
    Write,
    /// Suspend until the source is readable.
    AwaitReadable,
    /// Suspend until the sink is writable.
    AwaitWritable,
    /// Shut down the sink's write side, so that its peer sees end of stream.
    Shutdown,
    /// Release both halves: the relay is over.
    Finish(Ending),
}

/// One relay direction.
pub struct Relay {
    phase: RelayPhase,
    pending: Vec<u8>,
    received: Ghost<Seq<u8>>,
    delivered: Ghost<Seq<u8>>,
}

pub struct RelayView {
    pub phase: RelayPhase,
    /// The chunk that is read and not yet written.
    pub pending: Seq<u8>,
    /// Every byte read from the source.
    pub received: Seq<u8>,
    /// Every byte written to the sink.
    pub delivered: Seq<u8>,
}

impl View for Relay {
    type V = RelayView;

    closed spec fn view(&self) -> RelayView {
        RelayView {
            phase: self.phase,
            pending: self.pending@,
            received: self.received@,
            delivered: self.delivered@,
        }
    }
}

/// `a` is a beginning of `b`.
pub open spec fn starts(a: Seq<u8>, b: Seq<u8>) -> bool {
    a.len() <= b.len() && b.take(a.len() as int) == a
}

/// The sink has had the bytes of the source in order: while the relay runs,
/// all of them up to the pending chunk; once the source has ended, all of
/// them; after a failure, a beginning of them. A chunk is pending exactly
/// while writing.
pub open spec fn relay_wf(v: RelayView) -> bool {
    &&& (v.phase == RelayPhase::Writing) == (v.pending.len() > 0)
    &&& match v.phase {
        RelayPhase::Reading | RelayPhase::Writing => v.received == v.delivered + v.pending,
        RelayPhase::Closing(Ending::Graceful) | RelayPhase::Done(Ending::Graceful) => v.received
            == v.delivered,
        _ => starts(v.delivered, v.received),
    }
}

/// The action that a phase stands on: the one a relay repeats when an event
/// does not belong to its phase.
pub open spec fn standing_action(p: RelayPhase) -> RelayAction {
    match p {
        RelayPhase::Reading => RelayAction::Read,
        RelayPhase::Writing => RelayAction::Write,
        RelayPhase::Closing(_) => RelayAction::Shutdown,
        RelayPhase::Done(e) => RelayAction::Finish(e),
    }
}

/// The ending that a failure brings.
pub open spec fn ending_of(f: IoFailure) -> Ending {
    if f == IoFailure::Reset {
        Ending::Reset
    } else {
        Ending::Failed
    }
}

/// One step of a relay: `old` becomes `new` and the caller is told `a`.
/// Bytes read become the pending chunk and are written before the next read;
/// a readiness failure suspends the relay; end of stream, a reset or any
/// other failure closes the sink's write side and then ends the relay.
pub open spec fn relay_step(old: RelayView, e: RelayEvent, new: RelayView, a: RelayAction) -> bool {
    match (old.phase, e) {
        (RelayPhase::Reading, RelayEvent::Read(b)) => if b@.len() == 0 {
            new == RelayView { phase: RelayPhase::Closing(Ending::Graceful), ..old }
                && a == RelayAction::Shutdown
        } else {
            new == RelayView {
                phase: RelayPhase::Writing,
                pending: b@,
                received: old.received + b@,
                ..old
            } && a == RelayAction::Write
        },
        (RelayPhase::Reading, RelayEvent::ReadFailed(f)) => if f == IoFailure::WouldBlock {
            new == old && a == RelayAction::AwaitReadable
        } else {
            new == RelayView { phase: RelayPhase::Closing(ending_of(f)), ..old } && a
                == RelayAction::Shutdown
        },
        (RelayPhase::Writing, RelayEvent::Written) => new == RelayView {
            phase: RelayPhase::Reading,
            pending: Seq::empty(),
            delivered: old.delivered + old.pending,
            ..old
        } && a == RelayAction::Read,
        (RelayPhase::Writing, RelayEvent::WriteFailed(f)) => if f == IoFailure::WouldBlock {
            new == old && a == RelayAction::AwaitWritable
        } else {
            new == RelayView {
                phase: RelayPhase::Closing(ending_of(f)),
                pending: Seq::empty(),
                ..old
            } && a == RelayAction::Shutdown
        },
        (RelayPhase::Closing(x), RelayEvent::ShutDown) => new == RelayView {
            phase: RelayPhase::Done(x),
            ..old
        } && a == RelayAction::Finish(x),
        (RelayPhase::Closing(x), RelayEvent::WriteFailed(_)) => new == RelayView {
            phase: RelayPhase::Done(x),
            ..old
        } && a == RelayAction::Finish(x),
        _ => new == old && a == standing_action(old.phase),
    }
}

/// The view of a relay that has not started.
pub open spec fn fresh_relay() -> RelayView {
    RelayView {
        phase: RelayPhase::Reading,
        pending: Seq::empty(),
        received: Seq::empty(),
        delivered: Seq::empty(),
    }
}

proof fn lemma_step_keeps_wf(old: RelayView, e: RelayEvent, new: RelayView, a: RelayAction)
    requires
        relay_wf(old),
        relay_step(old, e, new, a),
    ensures
        relay_wf(new),
{
    match (old.phase, e) {
        (RelayPhase::Reading, RelayEvent::Read(b)) => {
            if b@.len() == 0 {
                assert(old.pending =~= Seq::<u8>::empty());
                assert(old.delivered + old.pending =~= old.delivered);
            }
        },
        (RelayPhase::Reading, RelayEvent::ReadFailed(f)) => {
            assert(old.pending =~= Seq::<u8>::empty());
            assert(old.received.take(old.delivered.len() as int) =~= old.delivered);
        },
        (RelayPhase::Writing, RelayEvent::Written) => {
            assert(new.delivered + new.pending =~= new.received);
        },
        (RelayPhase::Writing, RelayEvent::WriteFailed(f)) => {
            assert(old.received.take(old.delivered.len() as int) =~= old.delivered);
        },
        _ => {},
    }
}

/// A run of a relay: `views[i + 1]` follows from `views[i]` by one step on
/// `events[i]`, which told the caller `actions[i]`.
pub open spec fn relay_run(
    views: Seq<RelayView>,
    events: Seq<RelayEvent>,
    actions: Seq<RelayAction>,
) -> bool {
    &&& views.len() == events.len() + 1
    &&& actions.len() == events.len()
    &&& forall|i: int|
        0 <= i < events.len() ==> #[trigger] relay_step(views[i], events[i], views[i + 1], actions[i])
}

/// Whatever happens on either socket, a relay writes to its sink the bytes of
/// its source in the order read, with none left out and none added: at every
/// point a beginning of them, and all of them once the source has ended.
pub proof fn lemma_relay_keeps_order(
    views: Seq<RelayView>,
    events: Seq<RelayEvent>,
    actions: Seq<RelayAction>,
)
    requires
        relay_run(views, events, actions),
        views[0] == fresh_relay(),
    ensures
        forall|i: int| 0 <= i < views.len() ==> starts(#[trigger] views[i].delivered, views[i].received),
        views.last().phase == RelayPhase::Done(Ending::Graceful) ==> views.last().delivered
            == views.last().received,
{
    assert forall|i: int| 0 <= i < views.len() implies starts(
        #[trigger] views[i].delivered,
        views[i].received,
    ) by {
        lemma_run_wf(views, events, actions, i);
        let v = views[i];
        if v.received == v.delivered + v.pending || v.received == v.delivered {
            assert(v.received.take(v.delivered.len() as int) =~= v.delivered);
        }
    }
    lemma_run_wf(views, events, actions, views.len() - 1);
}

/// Every view of a run from a fresh relay is well formed.
proof fn lemma_run_wf(
    views: Seq<RelayView>,
    events: Seq<RelayEvent>,
    actions: Seq<RelayAction>,
    i: int,
)
    requires
        relay_run(views, events, actions),
        views[0] == fresh_relay(),
        0 <= i < views.len(),
    ensures
        relay_wf(views[i]),
    decreases i,
{
    if i == 0 {
        assert(fresh_relay().received =~= fresh_relay().delivered + fresh_relay().pending);
    } else {
        lemma_run_wf(views, events, actions, i - 1);
        let j = i - 1;
        assert(relay_step(views[j], events[j], views[j + 1], actions[j]));
        lemma_step_keeps_wf(views[i - 1], events[i - 1], views[i], actions[i - 1]);
    }
}

impl Relay {
    pub fn new() -> (r: Relay)
        ensures
            r@ == (RelayView {
                phase: RelayPhase::Reading,
                pending: Seq::empty(),
                received: Seq::empty(),
                delivered: Seq::empty(),
            }),
            relay_wf(r@),
    {
        let r = Relay {
            phase: RelayPhase::Reading,
            pending: Vec::new(),
            received: Ghost(Seq::empty()),
            delivered: Ghost(Seq::empty()),
        };
        assert(r.received@ =~= r.delivered@ + r.pending@);
        r
    }

    pub fn phase(&self) -> (r: RelayPhase)
        ensures
            r == self@.phase,
    {
        self.phase
    }

    /// The chunk to write.
    pub fn pending(&self) -> (r: &[u8])
        ensures
            r@ == self@.pending,
    {
        self.pending.as_slice()
    }

    /// Takes what came of the last action and says what to do next; see
    /// `relay_step`.
    pub fn step(&mut self, event: RelayEvent) -> (a: RelayAction)
        requires
            relay_wf(old(self)@),
        ensures
            relay_step(old(self)@, event, final(self)@, a),
            relay_wf(final(self)@),
    {
        match (self.phase, event) {
            (RelayPhase::Reading, RelayEvent::Read(b)) => {
                if b.len() == 0 {
                    assert(self.pending@ =~= Seq::<u8>::empty());
                    self.phase = RelayPhase::Closing(Ending::Graceful);
                    RelayAction::Shutdown
                } else {
                    self.received = Ghost(self.received@ + b@);
                    self.pending = b;
                    self.phase = RelayPhase::Writing;
                    assert(self.delivered@ + self.pending@ =~= self.received@);
                    RelayAction::Write
                }
            },
            (RelayPhase::Reading, RelayEvent::ReadFailed(f)) => {
                if f == IoFailure::WouldBlock {
                    RelayAction::AwaitReadable
                } else {
                    assert(self.received@.take(self.delivered@.len() as int) =~= self.delivered@);
                    self.phase = RelayPhase::Closing(
                        if f == IoFailure::Reset {
                            Ending::Reset
                        } else {
                            Ending::Failed
                        },
                    );
                    RelayAction::Shutdown
                }
            },
            (RelayPhase::Writing, RelayEvent::Written) => {
                self.delivered = Ghost(self.delivered@ + self.pending@);
                self.pending = Vec::new();
                self.phase = RelayPhase::Reading;
                assert(self.delivered@ + self.pending@ =~= self.received@);
                RelayAction::Read
            },
            (RelayPhase::Writing, RelayEvent::WriteFailed(f)) => {
                if f == IoFailure::WouldBlock {
                    RelayAction::AwaitWritable
                } else {
                    self.pending = Vec::new();
                    assert(self.received@.take(self.delivered@.len() as int) =~= self.delivered@);
                    self.phase = RelayPhase::Closing(
                        if f == IoFailure::Reset {
                            Ending::Reset
                        } else {
                            Ending::Failed
                        },
                    );
                    RelayAction::Shutdown
                }
            },
            (RelayPhase::Closing(x), RelayEvent::ShutDown) => {
                self.phase = RelayPhase::Done(x);
                RelayAction::Finish(x)
            },
            (RelayPhase::Closing(x), RelayEvent::WriteFailed(_)) => {
                self.phase = RelayPhase::Done(x);
                RelayAction::Finish(x)
            },
            (RelayPhase::Reading, _) => RelayAction::Read,
            (RelayPhase::Writing, _) => RelayAction::Write,
            (RelayPhase::Closing(_), _) => RelayAction::Shutdown,
            (RelayPhase::Done(x), _) => RelayAction::Finish(x),
        }
    }
}

} // verus!
