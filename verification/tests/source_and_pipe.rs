use byte_relay::pipe::{pipe_setup_outcome, PipeCreateResult, PipeSetup};
use byte_relay::source::{run_source, source_step, SourceAction, SourceReadOutcome};

#[test]
fn a_read_byte_becomes_a_single_byte_message() {
    let a = source_step(SourceReadOutcome::Byte(0x21));
    assert_eq!(a, SourceAction::Send(vec![0x21]));
}

#[test]
fn an_empty_read_publishes_nothing() {
    assert_eq!(source_step(SourceReadOutcome::Nothing), SourceAction::Idle);
}

#[test]
fn a_failed_read_is_reported_and_survived() {
    assert_eq!(
        source_step(SourceReadOutcome::Failed),
        SourceAction::LogAndContinue
    );
}

#[test]
fn a_source_run_keeps_every_byte_in_order() {
    let reads = vec![
        SourceReadOutcome::Byte(1),
        SourceReadOutcome::Failed,
        SourceReadOutcome::Byte(2),
        SourceReadOutcome::Nothing,
        SourceReadOutcome::Byte(3),
    ];
    let msgs = run_source(&reads);
    assert_eq!(msgs, vec![vec![1], vec![2], vec![3]]);
}

#[test]
fn a_source_run_over_no_reads_publishes_nothing() {
    let msgs = run_source(&Vec::new());
    assert!(msgs.is_empty());
}

#[test]
fn creating_the_pipe_afresh_is_ready() {
    assert_eq!(
        pipe_setup_outcome(PipeCreateResult::Created),
        PipeSetup::Ready
    );
}

#[test]
fn creating_the_pipe_again_is_no_error() {
    assert_eq!(
        pipe_setup_outcome(PipeCreateResult::AlreadyExists),
        PipeSetup::Ready
    );
}

#[test]
fn any_other_creation_failure_is_fatal_to_the_source() {
    assert_eq!(
        pipe_setup_outcome(PipeCreateResult::Failed),
        PipeSetup::Fatal
    );
}
