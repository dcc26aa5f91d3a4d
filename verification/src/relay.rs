//! The relay loop's decision logic.
//!
//! A relay loop owns one established connection end-to-end. Each poll cycle
//! it makes four observations in a fixed order: the connection's latched
//! out-of-band error, one poll of the piped source's channel, one poll of
//! the interactive source's channel, and one non-blocking single-byte read
//! of the connection. Every observation is an event; the machine here maps
//! each event, at the phase that makes it, to the action the loop carries
//! out — forward a message to the peer, echo a byte locally, note a
//! degraded source or an unclassified read error, or stop. The surrounding
//! process performs the observations and the actions; the decisions, and
//! what a whole run of them forwards and echoes, are verified here.

use vstd::prelude::*;

use crate::source::{bytes_read, source_messages, SourceReadOutcome};

verus! {

/// Which byte source an observation concerns.
#[derive(Clone, Copy, Debug, PartialEq, Eq, Structural)]
pub enum SourceKind {
    /// The source reading the process's interactive input stream.
    Interactive,
    /// The source reading the named pipe.
    Piped,
}

/// Where the relay loop stands within a poll cycle: which observation it
/// makes next. A cycle visits the four observing phases in order; any
/// terminal observation moves the loop to `Terminated` at once.
#[derive(Clone, Copy, Debug, PartialEq, Eq, Structural)]
pub enum RelayPhase {
    /// About to check the connection for a latched out-of-band error.
    CheckError,
    /// About to poll the piped source's channel once.
    PollPipe,
    /// About to poll the interactive source's channel once.
    PollStdin,
    /// About to attempt a non-blocking single-byte read of the connection.
    ReadSocket,
    /// The loop is over; the connection closes.
    Terminated,
}

/// What one non-blocking poll of a byte source's channel yielded.
#[derive(Clone, Debug, PartialEq, Eq)]
pub enum ChannelPoll {
    /// One message was waiting: a short ordered run of raw bytes.
    Message(Vec<u8>),
    /// Nothing was waiting.
    Empty,
    /// The producing worker is gone; nothing will arrive any more.
    Disconnected,
}

/// What one non-blocking single-byte read of the connection yielded.
#[derive(Clone, Copy, Debug, PartialEq, Eq, Structural)]
pub enum SocketReadResult {
    /// One byte arrived from the peer.
    Byte(u8),
    /// No data was available yet.
    WouldBlock,
    /// The peer reset the connection.
    Reset,
    /// The connection was aborted.
    Aborted,
    /// The connection is no longer connected.
    NotConnected,
    /// Some other, unclassified read error.
    OtherError,
}

/// One observation the relay loop makes, at the phase of the same name.
#[derive(Clone, Debug, PartialEq, Eq)]
pub enum RelayEvent {
    /// Whether a latched out-of-band error was present on the connection.
    OobError(bool),
    /// The result of polling the piped source's channel once.
    PipePoll(ChannelPoll),
    /// The result of polling the interactive source's channel once.
    StdinPoll(ChannelPoll),
    /// The result of the non-blocking single-byte read of the connection.
    SocketRead(SocketReadResult),
}

/// What the relay loop does with one observation.
#[derive(Clone, Copy, Debug, PartialEq, Eq, Structural)]
pub enum RelayAction {
    /// Nothing to do; move to the next observation.
    Proceed,
    /// Write the observed message's bytes to the connection, in full; a
    /// failed write is fatal to the loop.
    ForwardToPeer,
    /// Write this byte to the local display and flush it at once.
    EchoByte(u8),
    /// Note that this source's producer is gone; the loop continues,
    /// degraded but alive.
    NoteSourceGone(SourceKind),
    /// Note the unclassified read error; the loop continues.
    NoteReadError,
    /// Terminate the loop; the connection closes.
    Stop,
}

/// Whether an event is the observation that the phase makes.
pub open spec fn event_fits(phase: RelayPhase, e: RelayEvent) -> bool {
    match e {
        RelayEvent::OobError(_) => phase is CheckError,
        RelayEvent::PipePoll(_) => phase is PollPipe,
        RelayEvent::StdinPoll(_) => phase is PollStdin,
        RelayEvent::SocketRead(_) => phase is ReadSocket,
    }
}

/// Whether a read result is one of the disconnect-style conditions that
/// end the connection's life: reset, aborted, or not connected.
pub open spec fn terminal_read(r: SocketReadResult) -> bool {
    r is Reset || r is Aborted || r is NotConnected
}

/// Whether an event terminates the loop: a latched out-of-band error, or a
/// disconnect-style read result. Nothing else ever does.
pub open spec fn terminal_event(e: RelayEvent) -> bool {
    match e {
        RelayEvent::OobError(present) => present,
        RelayEvent::SocketRead(r) => terminal_read(r),
        _ => false,
    }
}

/// The phase after an event: `Terminated` on a terminal event, else the
/// next observation of the cycle, wrapping from the socket read back to
/// the error check of the following cycle.
pub open spec fn next_phase(e: RelayEvent) -> RelayPhase {
    if terminal_event(e) {
        RelayPhase::Terminated
    } else {
        match e {
            RelayEvent::OobError(_) => RelayPhase::PollPipe,
            RelayEvent::PipePoll(_) => RelayPhase::PollStdin,
            RelayEvent::StdinPoll(_) => RelayPhase::ReadSocket,
            RelayEvent::SocketRead(_) => RelayPhase::CheckError,
        }
    }
}

/// The action a channel poll earns: forward a waiting message, pass over
/// an empty channel, note a gone producer.
pub open spec fn poll_action(p: ChannelPoll, s: SourceKind) -> RelayAction {
    match p {
        ChannelPoll::Message(_) => RelayAction::ForwardToPeer,
        ChannelPoll::Empty => RelayAction::Proceed,
        ChannelPoll::Disconnected => RelayAction::NoteSourceGone(s),
    }
}

/// The action an event earns.
pub open spec fn step_action(e: RelayEvent) -> RelayAction {
    match e {
        RelayEvent::OobError(present) => if present {
            RelayAction::Stop
        } else {
            RelayAction::Proceed
        },
        RelayEvent::PipePoll(p) => poll_action(p, SourceKind::Piped),
        RelayEvent::StdinPoll(p) => poll_action(p, SourceKind::Interactive),
        RelayEvent::SocketRead(r) => match r {
            SocketReadResult::Byte(b) => RelayAction::EchoByte(b),
            SocketReadResult::WouldBlock => RelayAction::Proceed,
            SocketReadResult::Reset => RelayAction::Stop,
            SocketReadResult::Aborted => RelayAction::Stop,
            SocketReadResult::NotConnected => RelayAction::Stop,
            SocketReadResult::OtherError => RelayAction::NoteReadError,
        },
    }
}

/// The bytes an event puts on the connection: a forwarded message's
/// payload, and nothing for any other event.
pub open spec fn event_sent(e: RelayEvent) -> Seq<u8> {
    match e {
        RelayEvent::PipePoll(ChannelPoll::Message(d)) => d@,
        RelayEvent::StdinPoll(ChannelPoll::Message(d)) => d@,
        _ => Seq::empty(),
    }
}

/// The bytes an event puts on the local display: the byte a socket read
/// yielded, and nothing for any other event.
pub open spec fn event_echoed(e: RelayEvent) -> Seq<u8> {
    match e {
        RelayEvent::SocketRead(SocketReadResult::Byte(b)) => seq![b],
        _ => Seq::empty(),
    }
}

/// Whether an event observes a waiting message on either source's channel.
pub open spec fn is_message_poll(e: RelayEvent) -> bool {
    match e {
        RelayEvent::PipePoll(p) => p is Message,
        RelayEvent::StdinPoll(p) => p is Message,
        _ => false,
    }
}

/// Advance the relay by one observation: at `phase`, having observed `e`,
/// the loop moves to the returned phase and carries out the returned
/// action. The contract pins both down for every observation: the loop
/// stops exactly on a latched out-of-band error or a disconnect-style read
/// result; a waiting message is forwarded at the very step that observes
/// it; a received byte is echoed at once; everything else is a self-loop,
/// noted or silent.
pub fn relay_step(phase: RelayPhase, e: &RelayEvent) -> (r: (RelayPhase, RelayAction))
    requires
        event_fits(phase, *e),
    ensures
        r.0 == next_phase(*e),
        r.1 == step_action(*e),
        r.0 is Terminated <==> terminal_event(*e),
        r.1 is Stop <==> terminal_event(*e),
        r.1 is ForwardToPeer <==> is_message_poll(*e),
        r.1 is EchoByte <==> (*e) matches RelayEvent::SocketRead(SocketReadResult::Byte(_)),
{
    match e {
        RelayEvent::OobError(present) => if *present {
            (RelayPhase::Terminated, RelayAction::Stop)
        } else {
            (RelayPhase::PollPipe, RelayAction::Proceed)
        },
        RelayEvent::PipePoll(p) => match p {
            ChannelPoll::Message(_) => (RelayPhase::PollStdin, RelayAction::ForwardToPeer),
            ChannelPoll::Empty => (RelayPhase::PollStdin, RelayAction::Proceed),
            ChannelPoll::Disconnected => (
                RelayPhase::PollStdin,
                RelayAction::NoteSourceGone(SourceKind::Piped),
            ),
        },
        RelayEvent::StdinPoll(p) => match p {
            ChannelPoll::Message(_) => (RelayPhase::ReadSocket, RelayAction::ForwardToPeer),
            ChannelPoll::Empty => (RelayPhase::ReadSocket, RelayAction::Proceed),
            ChannelPoll::Disconnected => (
                RelayPhase::ReadSocket,
                RelayAction::NoteSourceGone(SourceKind::Interactive),
            ),
        },
        RelayEvent::SocketRead(r) => match r {
            SocketReadResult::Byte(b) => (RelayPhase::CheckError, RelayAction::EchoByte(*b)),
            SocketReadResult::WouldBlock => (RelayPhase::CheckError, RelayAction::Proceed),
            SocketReadResult::Reset => (RelayPhase::Terminated, RelayAction::Stop),
            SocketReadResult::Aborted => (RelayPhase::Terminated, RelayAction::Stop),
            SocketReadResult::NotConnected => (RelayPhase::Terminated, RelayAction::Stop),
            SocketReadResult::OtherError => (RelayPhase::CheckError, RelayAction::NoteReadError),
        },
    }
}

/// The phase that makes the `i`-th observation of an uninterrupted run:
/// the four observing phases, visited in rotation.
pub open spec fn slot_phase(i: int) -> RelayPhase {
    if i % 4 == 0 {
        RelayPhase::CheckError
    } else if i % 4 == 1 {
        RelayPhase::PollPipe
    } else if i % 4 == 2 {
        RelayPhase::PollStdin
    } else {
        RelayPhase::ReadSocket
    }
}

/// A well-formed trace of observations, as the loop makes them: the first
/// belongs to the error check of the first cycle, each later one to the
/// phase the cycle's rotation has reached, and a terminal observation —
/// after which the loop observes nothing more — can only be the last.
pub open spec fn wf_trace(t: Seq<RelayEvent>) -> bool {
    forall|i: int|
        0 <= i < t.len() ==> {
            &&& event_fits(slot_phase(i), #[trigger] t[i])
            &&& (terminal_event(t[i]) ==> i == t.len() - 1)
        }
}

/// All bytes a trace of observations puts on the connection, in
/// observation order: the forwarded messages, concatenated whole.
pub open spec fn sent_bytes(t: Seq<RelayEvent>) -> Seq<u8>
    decreases t.len(),
{
    if t.len() == 0 {
        Seq::empty()
    } else {
        sent_bytes(t.drop_last()) + event_sent(t.last())
    }
}

/// All bytes a trace of observations puts on the local display, in
/// observation order: the bytes the socket reads yielded.
pub open spec fn echoed_bytes(t: Seq<RelayEvent>) -> Seq<u8>
    decreases t.len(),
{
    if t.len() == 0 {
        Seq::empty()
    } else {
        echoed_bytes(t.drop_last()) + event_echoed(t.last())
    }
}

/// What one whole run of the relay loop produced.
pub struct RelayRun {
    /// Every byte written to the connection, in writing order.
    pub sent: Vec<u8>,
    /// Every byte echoed to the local display, in echoing order.
    pub echoed: Vec<u8>,
    /// Whether the loop terminated, as opposed to running out of
    /// observations while still alive.
    pub stopped: bool,
}

/// Extending a trace by one observation extends what is sent and echoed
/// by exactly that observation's contribution, at its position: a message
/// is on the connection, and a received byte on the display, as soon as
/// the poll that observes it completes.
pub proof fn lemma_output_grows_at_observation(t: Seq<RelayEvent>, i: int)
    requires
        0 <= i < t.len(),
    ensures
        sent_bytes(t.take(i + 1)) == sent_bytes(t.take(i)) + event_sent(t[i]),
        echoed_bytes(t.take(i + 1)) == echoed_bytes(t.take(i)) + event_echoed(t[i]),
{
    assert(t.take(i + 1).drop_last() =~= t.take(i));
    assert(t.take(i + 1).last() == t[i]);
}

/// Run the relay's decisions over a whole trace of observations, from the
/// first error check on, and collect what they produce. The run stops
/// exactly when the trace ends in a terminal observation; everything the
/// trace's messages carried is on the connection, and everything its reads
/// yielded is on the display, whole and in order.
pub fn run_relay(events: &Vec<RelayEvent>) -> (r: RelayRun)
    requires
        wf_trace(events@),
    ensures
        r.sent@ == sent_bytes(events@),
        r.echoed@ == echoed_bytes(events@),
        r.stopped <==> (events@.len() > 0 && terminal_event(events@.last())),
{
    let mut sent: Vec<u8> = Vec::new();
    let mut echoed: Vec<u8> = Vec::new();
    let mut stopped = false;
    let mut phase = RelayPhase::CheckError;
    let mut i: usize = 0;
    proof {
        assert(sent@ =~= sent_bytes(events@.take(0)));
        assert(echoed@ =~= echoed_bytes(events@.take(0)));
    }
    while i < events.len()
        invariant
            i <= events.len(),
            wf_trace(events@),
            !stopped,
            forall|j: int| 0 <= j < i ==> !terminal_event(#[trigger] events@[j]),
            phase == slot_phase(i as int),
            sent@ == sent_bytes(events@.take(i as int)),
            echoed@ == echoed_bytes(events@.take(i as int)),
        decreases events.len() - i,
    {
        let ev = &events[i];
        let (next, action) = relay_step(phase, ev);
        match action {
            RelayAction::ForwardToPeer => {
                let ghost pre = sent@;
                match ev {
                    RelayEvent::PipePoll(ChannelPoll::Message(d))
                    | RelayEvent::StdinPoll(ChannelPoll::Message(d)) => {
                        let mut j: usize = 0;
                        while j < d.len()
                            invariant
                                j <= d.len(),
                                sent@ == pre + d@.take(j as int),
                            decreases d.len() - j,
                        {
                            sent.push(d[j]);
                            proof {
                                assert(pre + d@.take(j + 1) =~= (pre + d@.take(j as int)).push(
                                    d@[j as int],
                                ));
                            }
                            j = j + 1;
                        }
                        proof {
                            assert(d@.take(d@.len() as int) =~= d@);
                        }
                    },
                    _ => {
                        proof {
                            assert(false);
                        }
                    },
                }
            },
            RelayAction::EchoByte(b) => {
                echoed.push(b);
            },
            RelayAction::Stop => {
                stopped = true;
            },
            _ => {},
        }
        proof {
            lemma_output_grows_at_observation(events@, i as int);
            if !terminal_event(events@[i as int]) {
                assert(sent@ =~= sent_bytes(events@.take(i + 1)));
                assert(echoed@ =~= echoed_bytes(events@.take(i + 1)));
            }
        }
        if stopped {
            proof {
                assert(i == events@.len() - 1);
                assert(event_sent(events@[i as int]) =~= Seq::<u8>::empty());
                assert(event_echoed(events@[i as int]) =~= Seq::<u8>::empty());
                assert(sent@ =~= sent_bytes(events@.take(i + 1)));
                assert(echoed@ =~= echoed_bytes(events@.take(i + 1)));
                assert(events@.take(i + 1) =~= events@);
            }
            return RelayRun { sent, echoed, stopped };
        }
        phase = next;
        i = i + 1;
    }
    proof {
        assert(events@.take(events@.len() as int) =~= events@);
    }
    RelayRun { sent, echoed, stopped }
}

/// Whether an event observes a waiting message of this particular source.
pub open spec fn is_message_from(e: RelayEvent, s: SourceKind) -> bool {
    match e {
        RelayEvent::PipePoll(p) => p is Message && s is Piped,
        RelayEvent::StdinPoll(p) => p is Message && s is Interactive,
        _ => false,
    }
}

/// The payloads of all messages a trace observes, whole and in
/// observation order.
pub open spec fn message_payloads(t: Seq<RelayEvent>) -> Seq<Seq<u8>> {
    t.filter(|e: RelayEvent| is_message_poll(e)).map_values(|e: RelayEvent| event_sent(e))
}

/// The payloads of the messages one particular source delivered to a
/// trace, whole and in observation order.
pub open spec fn source_payloads(t: Seq<RelayEvent>, s: SourceKind) -> Seq<Seq<u8>> {
    t.filter(|e: RelayEvent| is_message_from(e, s)).map_values(|e: RelayEvent| event_sent(e))
}

/// The bytes one particular source contributed to the connection over a
/// trace, in observation order.
pub open spec fn source_sent_bytes(t: Seq<RelayEvent>, s: SourceKind) -> Seq<u8>
    decreases t.len(),
{
    if t.len() == 0 {
        Seq::empty()
    } else {
        source_sent_bytes(t.drop_last(), s) + (if is_message_from(t.last(), s) {
            event_sent(t.last())
        } else {
            Seq::empty()
        })
    }
}

/// A message observed on either source's channel is forwarded at the very
/// step that observes it: the peer stream after that step is the peer
/// stream before it with the whole payload appended. So each source's
/// messages reach the connection whole, in the order its polls observe
/// them, within the cycle that observes them.
pub proof fn lemma_message_forwarded_at_observation(t: Seq<RelayEvent>, i: int)
    requires
        0 <= i < t.len(),
        is_message_poll(t[i]),
    ensures
        sent_bytes(t.take(i + 1)) == sent_bytes(t.take(i)) + event_sent(t[i]),
        step_action(t[i]) is ForwardToPeer,
{
    lemma_output_grows_at_observation(t, i);
}

/// A byte read from the peer is echoed at the very step that reads it:
/// the display stream after that step is the display stream before it
/// with that byte appended.
pub proof fn lemma_byte_echoed_at_observation(t: Seq<RelayEvent>, i: int, b: u8)
    requires
        0 <= i < t.len(),
        t[i] == RelayEvent::SocketRead(SocketReadResult::Byte(b)),
    ensures
        echoed_bytes(t.take(i + 1)) == echoed_bytes(t.take(i)).push(b),
        step_action(t[i]) == RelayAction::EchoByte(b),
{
    lemma_output_grows_at_observation(t, i);
    assert(echoed_bytes(t.take(i)) + seq![b] =~= echoed_bytes(t.take(i)).push(b));
}

/// What reaches the peer is exactly the observed messages, concatenated
/// whole in observation order: no byte is lost, invented, duplicated or
/// reordered between a channel and the connection.
pub proof fn lemma_peer_stream_is_message_concat(t: Seq<RelayEvent>)
    ensures
        sent_bytes(t) == message_payloads(t).flatten_alt(),
    decreases t.len(),
{
    reveal(Seq::filter);
    let keep = |e: RelayEvent| is_message_poll(e);
    let pay = |e: RelayEvent| event_sent(e);
    if t.len() == 0 {
        assert(t.filter(keep) =~= Seq::<RelayEvent>::empty());
        assert(message_payloads(t) =~= Seq::<Seq<u8>>::empty());
        assert(sent_bytes(t) =~= message_payloads(t).flatten_alt());
    } else {
        let pre = t.drop_last();
        let e = t.last();
        lemma_peer_stream_is_message_concat(pre);
        if keep(e) {
            assert(t.filter(keep) == pre.filter(keep).push(e));
            assert(message_payloads(t) =~= message_payloads(pre).push(event_sent(e)));
            assert(message_payloads(t).drop_last() =~= message_payloads(pre));
        } else {
            assert(t.filter(keep) == pre.filter(keep));
            assert(message_payloads(t) =~= message_payloads(pre));
            assert(event_sent(e) =~= Seq::<u8>::empty());
            assert(sent_bytes(t) =~= sent_bytes(pre));
        }
    }
}

/// One source's contribution to the peer stream is exactly its own
/// messages, concatenated whole in observation order — each source's
/// ordering holds independently of the other's traffic.
pub proof fn lemma_source_stream_in_order(t: Seq<RelayEvent>, s: SourceKind)
    ensures
        source_sent_bytes(t, s) == source_payloads(t, s).flatten_alt(),
    decreases t.len(),
{
    reveal(Seq::filter);
    let keep = |e: RelayEvent| is_message_from(e, s);
    if t.len() == 0 {
        assert(t.filter(keep) =~= Seq::<RelayEvent>::empty());
        assert(source_payloads(t, s) =~= Seq::<Seq<u8>>::empty());
        assert(source_sent_bytes(t, s) =~= source_payloads(t, s).flatten_alt());
    } else {
        let pre = t.drop_last();
        let e = t.last();
        lemma_source_stream_in_order(pre, s);
        if keep(e) {
            assert(t.filter(keep) == pre.filter(keep).push(e));
            assert(source_payloads(t, s) =~= source_payloads(pre, s).push(event_sent(e)));
            assert(source_payloads(t, s).drop_last() =~= source_payloads(pre, s));
        } else {
            assert(t.filter(keep) == pre.filter(keep));
            assert(source_payloads(t, s) =~= source_payloads(pre, s));
            assert(source_sent_bytes(t, s) =~= source_sent_bytes(pre, s));
        }
    }
}

/// Whether an event is a socket read that yielded a byte.
pub open spec fn is_byte_read(e: RelayEvent) -> bool {
    e matches RelayEvent::SocketRead(SocketReadResult::Byte(_))
}

/// The byte a reading event yielded.
pub open spec fn read_byte(e: RelayEvent) -> u8
    recommends
        is_byte_read(e),
{
    match e {
        RelayEvent::SocketRead(SocketReadResult::Byte(b)) => b,
        _ => 0,
    }
}

/// The bytes the peer delivered over a trace, in observation order.
pub open spec fn received_bytes(t: Seq<RelayEvent>) -> Seq<u8> {
    t.filter(|e: RelayEvent| is_byte_read(e)).map_values(|e: RelayEvent| read_byte(e))
}

/// What reaches the local display is exactly what the peer delivered, in
/// the same order: no byte is dropped, invented or duplicated between the
/// connection and the display.
pub proof fn lemma_display_stream_is_received(t: Seq<RelayEvent>)
    ensures
        echoed_bytes(t) == received_bytes(t),
    decreases t.len(),
{
    reveal(Seq::filter);
    let keep = |e: RelayEvent| is_byte_read(e);
    if t.len() == 0 {
        assert(t.filter(keep) =~= Seq::<RelayEvent>::empty());
        assert(echoed_bytes(t) =~= received_bytes(t));
    } else {
        let pre = t.drop_last();
        let e = t.last();
        lemma_display_stream_is_received(pre);
        if keep(e) {
            assert(t.filter(keep) == pre.filter(keep).push(e));
            assert(received_bytes(t) =~= received_bytes(pre).push(read_byte(e)));
            assert(echoed_bytes(t) =~= echoed_bytes(pre).push(read_byte(e)));
        } else {
            assert(t.filter(keep) == pre.filter(keep));
            assert(received_bytes(t) =~= received_bytes(pre));
            assert(event_echoed(e) =~= Seq::<u8>::empty());
            assert(echoed_bytes(t) =~= echoed_bytes(pre));
        }
    }
}

/// A terminal observation — a latched out-of-band error, or a reset,
/// aborted or not-connected read — stops the loop at the very step that
/// makes it, and contributes nothing: extending a trace with a terminal
/// event leaves both the peer stream and the display stream as they were.
/// Each relay loop owns its own trace, so one connection's terminal event
/// says nothing about any other's.
pub proof fn lemma_terminal_event_adds_no_output(t: Seq<RelayEvent>, e: RelayEvent)
    requires
        terminal_event(e),
    ensures
        sent_bytes(t.push(e)) == sent_bytes(t),
        echoed_bytes(t.push(e)) == echoed_bytes(t),
        next_phase(e) is Terminated,
        step_action(e) is Stop,
{
    assert(t.push(e).drop_last() =~= t);
    assert(t.push(e).last() == e);
    assert(sent_bytes(t) + event_sent(e) =~= sent_bytes(t));
    assert(echoed_bytes(t) + event_echoed(e) =~= echoed_bytes(t));
}

/// From keystroke to connection, and from pipe to connection: when the
/// messages a relay trace observes from one source are exactly the
/// messages that source's worker published — which its first-in-first-out
/// channel guarantees — then the bytes that source contributed to the
/// peer stream are exactly the bytes its reads yielded, whole and in
/// reading order.
pub proof fn lemma_source_bytes_relayed_end_to_end(
    reads: Seq<SourceReadOutcome>,
    t: Seq<RelayEvent>,
    s: SourceKind,
)
    requires
        source_payloads(t, s) == source_messages(reads),
    ensures
        source_sent_bytes(t, s) == bytes_read(reads),
{
    lemma_source_stream_in_order(t, s);
    crate::source::lemma_source_preserves_bytes(reads);
}

/// In a well-formed trace the loop is gone the moment it sees a terminal
/// observation: such an observation can only be the trace's last.
pub proof fn lemma_terminal_event_ends_trace(t: Seq<RelayEvent>, i: int)
    requires
        wf_trace(t),
        0 <= i < t.len(),
        terminal_event(t[i]),
    ensures
        i == t.len() - 1,
{
}

} // verus!
