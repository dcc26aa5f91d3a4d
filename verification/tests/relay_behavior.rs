use byte_relay::relay::{
    run_relay, relay_step, ChannelPoll, RelayAction, RelayEvent, RelayPhase, SocketReadResult,
    SourceKind,
};

fn quiet_cycle(read: SocketReadResult) -> Vec<RelayEvent> {
    vec![
        RelayEvent::OobError(false),
        RelayEvent::PipePoll(ChannelPoll::Empty),
        RelayEvent::StdinPoll(ChannelPoll::Empty),
        RelayEvent::SocketRead(read),
    ]
}

fn cycle(pipe: ChannelPoll, stdin: ChannelPoll, read: SocketReadResult) -> Vec<RelayEvent> {
    vec![
        RelayEvent::OobError(false),
        RelayEvent::PipePoll(pipe),
        RelayEvent::StdinPoll(stdin),
        RelayEvent::SocketRead(read),
    ]
}

#[test]
fn oob_error_check_decides_life_or_death() {
    let live = relay_step(RelayPhase::CheckError, &RelayEvent::OobError(false));
    assert_eq!(live, (RelayPhase::PollPipe, RelayAction::Proceed));
    let dead = relay_step(RelayPhase::CheckError, &RelayEvent::OobError(true));
    assert_eq!(dead, (RelayPhase::Terminated, RelayAction::Stop));
}

#[test]
fn pipe_poll_forwards_notes_or_passes() {
    let msg = RelayEvent::PipePoll(ChannelPoll::Message(vec![0x41]));
    assert_eq!(
        relay_step(RelayPhase::PollPipe, &msg),
        (RelayPhase::PollStdin, RelayAction::ForwardToPeer)
    );
    let empty = RelayEvent::PipePoll(ChannelPoll::Empty);
    assert_eq!(
        relay_step(RelayPhase::PollPipe, &empty),
        (RelayPhase::PollStdin, RelayAction::Proceed)
    );
    let gone = RelayEvent::PipePoll(ChannelPoll::Disconnected);
    assert_eq!(
        relay_step(RelayPhase::PollPipe, &gone),
        (
            RelayPhase::PollStdin,
            RelayAction::NoteSourceGone(SourceKind::Piped)
        )
    );
}

#[test]
fn stdin_poll_forwards_notes_or_passes() {
    let msg = RelayEvent::StdinPoll(ChannelPoll::Message(vec![0x42]));
    assert_eq!(
        relay_step(RelayPhase::PollStdin, &msg),
        (RelayPhase::ReadSocket, RelayAction::ForwardToPeer)
    );
    let empty = RelayEvent::StdinPoll(ChannelPoll::Empty);
    assert_eq!(
        relay_step(RelayPhase::PollStdin, &empty),
        (RelayPhase::ReadSocket, RelayAction::Proceed)
    );
    let gone = RelayEvent::StdinPoll(ChannelPoll::Disconnected);
    assert_eq!(
        relay_step(RelayPhase::PollStdin, &gone),
        (
            RelayPhase::ReadSocket,
            RelayAction::NoteSourceGone(SourceKind::Interactive)
        )
    );
}

#[test]
fn socket_read_echoes_waits_stops_or_notes() {
    let byte = RelayEvent::SocketRead(SocketReadResult::Byte(0x70));
    assert_eq!(
        relay_step(RelayPhase::ReadSocket, &byte),
        (RelayPhase::CheckError, RelayAction::EchoByte(0x70))
    );
    let dry = RelayEvent::SocketRead(SocketReadResult::WouldBlock);
    assert_eq!(
        relay_step(RelayPhase::ReadSocket, &dry),
        (RelayPhase::CheckError, RelayAction::Proceed)
    );
    for terminal in [
        SocketReadResult::Reset,
        SocketReadResult::Aborted,
        SocketReadResult::NotConnected,
    ] {
        let ev = RelayEvent::SocketRead(terminal);
        assert_eq!(
            relay_step(RelayPhase::ReadSocket, &ev),
            (RelayPhase::Terminated, RelayAction::Stop)
        );
    }
    let odd = RelayEvent::SocketRead(SocketReadResult::OtherError);
    assert_eq!(
        relay_step(RelayPhase::ReadSocket, &odd),
        (RelayPhase::CheckError, RelayAction::NoteReadError)
    );
}

#[test]
fn ping_ok_scenario() {
    // The peer writes "ping"; the operator types "ok". Each typed byte is a
    // message of its own, and each peer byte arrives on a cycle of its own.
    let mut events = Vec::new();
    events.extend(cycle(
        ChannelPoll::Empty,
        ChannelPoll::Message(vec![b'o']),
        SocketReadResult::Byte(b'p'),
    ));
    events.extend(cycle(
        ChannelPoll::Empty,
        ChannelPoll::Message(vec![b'k']),
        SocketReadResult::Byte(b'i'),
    ));
    events.extend(quiet_cycle(SocketReadResult::Byte(b'n')));
    events.extend(quiet_cycle(SocketReadResult::Byte(b'g')));
    let run = run_relay(&events);
    assert_eq!(run.sent, b"ok".to_vec());
    assert_eq!(run.echoed, b"ping".to_vec());
    assert!(!run.stopped);
}

#[test]
fn clean_close_with_zero_bytes_terminates() {
    // The peer sends nothing and closes; the read reports not-connected.
    let events = quiet_cycle(SocketReadResult::NotConnected);
    let run = run_relay(&events);
    assert!(run.stopped);
    assert!(run.sent.is_empty());
    assert!(run.echoed.is_empty());
}

#[test]
fn clean_close_via_reset_terminates() {
    let events = quiet_cycle(SocketReadResult::Reset);
    let run = run_relay(&events);
    assert!(run.stopped);
    assert!(run.sent.is_empty());
    assert!(run.echoed.is_empty());
}

#[test]
fn abrupt_reset_exits_in_the_observing_cycle() {
    // Traffic flows, then the peer resets: the loop stops in that very
    // cycle, with everything already relayed left intact.
    let mut events = Vec::new();
    events.extend(cycle(
        ChannelPoll::Message(vec![1, 2]),
        ChannelPoll::Empty,
        SocketReadResult::Byte(9),
    ));
    events.extend(cycle(
        ChannelPoll::Empty,
        ChannelPoll::Message(vec![3]),
        SocketReadResult::Reset,
    ));
    let run = run_relay(&events);
    assert!(run.stopped);
    assert_eq!(run.sent, vec![1, 2, 3]);
    assert_eq!(run.echoed, vec![9]);
}

#[test]
fn one_reset_leaves_other_connections_alone() {
    // Two independent relay runs: one is reset, the other keeps relaying.
    let reset_run = run_relay(&quiet_cycle(SocketReadResult::Reset));
    assert!(reset_run.stopped);
    let mut other = Vec::new();
    other.extend(cycle(
        ChannelPoll::Empty,
        ChannelPoll::Message(vec![b'a']),
        SocketReadResult::WouldBlock,
    ));
    other.extend(quiet_cycle(SocketReadResult::Byte(b'z')));
    let other_run = run_relay(&other);
    assert!(!other_run.stopped);
    assert_eq!(other_run.sent, vec![b'a']);
    assert_eq!(other_run.echoed, vec![b'z']);
}

#[test]
fn latched_error_stops_before_any_forwarding() {
    let events = vec![RelayEvent::OobError(true)];
    let run = run_relay(&events);
    assert!(run.stopped);
    assert!(run.sent.is_empty());
    assert!(run.echoed.is_empty());
}

#[test]
fn pipe_drains_before_stdin_within_a_cycle() {
    let events = cycle(
        ChannelPoll::Message(vec![1]),
        ChannelPoll::Message(vec![2]),
        SocketReadResult::WouldBlock,
    );
    let run = run_relay(&events);
    assert_eq!(run.sent, vec![1, 2]);
}

#[test]
fn stdin_bytes_keep_their_order() {
    let mut events = Vec::new();
    for b in [b'h', b'e', b'y'] {
        events.extend(cycle(
            ChannelPoll::Empty,
            ChannelPoll::Message(vec![b]),
            SocketReadResult::WouldBlock,
        ));
    }
    let run = run_relay(&events);
    assert_eq!(run.sent, b"hey".to_vec());
    assert!(run.echoed.is_empty());
}

#[test]
fn pipe_bytes_keep_their_order() {
    let mut events = Vec::new();
    for b in [10u8, 20, 30, 40] {
        events.extend(cycle(
            ChannelPoll::Message(vec![b]),
            ChannelPoll::Empty,
            SocketReadResult::WouldBlock,
        ));
    }
    let run = run_relay(&events);
    assert_eq!(run.sent, vec![10, 20, 30, 40]);
}

#[test]
fn peer_bytes_echo_without_loss_or_duplication() {
    let mut events = Vec::new();
    for b in [5u8, 5, 6] {
        events.extend(quiet_cycle(SocketReadResult::Byte(b)));
    }
    events.extend(quiet_cycle(SocketReadResult::WouldBlock));
    let run = run_relay(&events);
    assert_eq!(run.echoed, vec![5, 5, 6]);
    assert!(run.sent.is_empty());
}

#[test]
fn disconnected_source_degrades_but_does_not_stop() {
    let mut events = Vec::new();
    events.extend(cycle(
        ChannelPoll::Disconnected,
        ChannelPoll::Disconnected,
        SocketReadResult::Byte(b'x'),
    ));
    events.extend(cycle(
        ChannelPoll::Disconnected,
        ChannelPoll::Disconnected,
        SocketReadResult::WouldBlock,
    ));
    let run = run_relay(&events);
    assert!(!run.stopped);
    assert_eq!(run.echoed, vec![b'x']);
}

#[test]
fn unclassified_read_error_is_tolerated() {
    let mut events = Vec::new();
    events.extend(quiet_cycle(SocketReadResult::OtherError));
    events.extend(quiet_cycle(SocketReadResult::Byte(b'q')));
    let run = run_relay(&events);
    assert!(!run.stopped);
    assert_eq!(run.echoed, vec![b'q']);
}
