//! The byte source's decision logic.
//!
//! A byte source is a background worker that repeatedly performs a blocking
//! read of one byte from its underlying source — the interactive input
//! stream, or the named pipe — and publishes each byte, packaged as a
//! one-element message, on its channel to the relay. A failed read is
//! reported and the worker keeps looping. The read itself and the channel
//! send are performed by the surrounding process; the functions here decide
//! what each read outcome leads to.

use vstd::prelude::*;

verus! {

/// What one attempted read of a single byte yielded, as the worker
/// observed it.
#[derive(Clone, Copy, Debug, PartialEq, Eq, Structural)]
pub enum SourceReadOutcome {
    /// Exactly one byte was read.
    Byte(u8),
    /// The read returned without a byte (the underlying source is drained).
    Nothing,
    /// The read failed.
    Failed,
}

/// What the worker does with one read outcome.
#[derive(Clone, Debug, PartialEq, Eq)]
pub enum SourceAction {
    /// Send this message — the byte read, packaged alone — on the channel.
    Send(Vec<u8>),
    /// Nothing to publish; sleep and read again.
    Idle,
    /// Report the failed read, then sleep and read again; a failed read
    /// never stops the worker.
    LogAndContinue,
}

/// The message a read outcome publishes: the byte read, packaged as a
/// one-element sequence, and nothing for any other outcome.
pub open spec fn outcome_message(r: SourceReadOutcome) -> Seq<u8> {
    match r {
        SourceReadOutcome::Byte(b) => seq![b],
        _ => Seq::empty(),
    }
}

/// Decide what one read outcome leads to.
pub fn source_step(r: SourceReadOutcome) -> (a: SourceAction)
    ensures
        r matches SourceReadOutcome::Byte(b) ==> (a matches SourceAction::Send(m) && m@ == seq![
            b,
        ]),
        r is Nothing ==> a is Idle,
        r is Failed ==> a is LogAndContinue,
        a matches SourceAction::Send(m) ==> m@ == outcome_message(r),
{
    match r {
        SourceReadOutcome::Byte(b) => SourceAction::Send(vec![b]),
        SourceReadOutcome::Nothing => SourceAction::Idle,
        SourceReadOutcome::Failed => SourceAction::LogAndContinue,
    }
}

/// The messages a worker publishes over a whole run of reads, in reading
/// order: one single-byte message per byte read, nothing for the rest.
pub open spec fn source_messages(rs: Seq<SourceReadOutcome>) -> Seq<Seq<u8>>
    decreases rs.len(),
{
    if rs.len() == 0 {
        Seq::empty()
    } else if rs.last() is Byte {
        source_messages(rs.drop_last()).push(outcome_message(rs.last()))
    } else {
        source_messages(rs.drop_last())
    }
}

/// The bytes a run of reads yielded, in reading order.
pub open spec fn bytes_read(rs: Seq<SourceReadOutcome>) -> Seq<u8>
    decreases rs.len(),
{
    if rs.len() == 0 {
        Seq::empty()
    } else {
        bytes_read(rs.drop_last()) + outcome_message(rs.last())
    }
}

/// Run the worker's decision over a whole sequence of read outcomes and
/// collect the messages it publishes.
pub fn run_source(reads: &Vec<SourceReadOutcome>) -> (msgs: Vec<Vec<u8>>)
    ensures
        message_views(msgs@) == source_messages(reads@),
{
    let mut msgs: Vec<Vec<u8>> = Vec::new();
    let mut i: usize = 0;
    proof {
        assert(message_views(msgs@) =~= source_messages(reads@.take(0)));
    }
    while i < reads.len()
        invariant
            i <= reads.len(),
            message_views(msgs@) == source_messages(reads@.take(i as int)),
        decreases reads.len() - i,
    {
        let r = reads[i];
        let a = source_step(r);
        let ghost pre = msgs@;
        match a {
            SourceAction::Send(m) => {
                let ghost mv = m@;
                msgs.push(m);
                proof {
                    assert(message_views(msgs@) =~= message_views(pre).push(mv));
                }
            },
            _ => {},
        }
        proof {
            assert(reads@.take(i + 1).drop_last() =~= reads@.take(i as int));
            assert(reads@.take(i + 1).last() == reads@[i as int]);
        }
        i = i + 1;
    }
    proof {
        assert(reads@.take(reads@.len() as int) =~= reads@);
    }
    msgs
}

/// The views of a vector of messages, in order.
pub open spec fn message_views(ms: Seq<Vec<u8>>) -> Seq<Seq<u8>> {
    ms.map_values(|m: Vec<u8>| m@)
}

/// No byte is lost, invented, duplicated or reordered on the way into
/// messages: the worker's published messages, concatenated in publishing
/// order, are exactly the bytes its reads yielded, in reading order.
pub proof fn lemma_source_preserves_bytes(rs: Seq<SourceReadOutcome>)
    ensures
        source_messages(rs).flatten_alt() == bytes_read(rs),
    decreases rs.len(),
{
    if rs.len() == 0 {
        assert(source_messages(rs).flatten_alt() =~= bytes_read(rs));
    } else {
        lemma_source_preserves_bytes(rs.drop_last());
        if rs.last() is Byte {
            assert(source_messages(rs).flatten_alt() == source_messages(rs.drop_last()).push(
                outcome_message(rs.last()),
            ).flatten_alt());
            assert(source_messages(rs.drop_last()).push(
                outcome_message(rs.last()),
            ).drop_last() =~= source_messages(rs.drop_last()));
        } else {
            assert(bytes_read(rs) =~= bytes_read(rs.drop_last()));
        }
    }
}

} // verus!
