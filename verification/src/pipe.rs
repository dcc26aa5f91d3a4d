//! Judging the outcome of creating the named pipe.
//!
//! The piped byte source first ensures a named pipe exists at a well-known
//! filesystem path. Creation is idempotent: finding the path already present
//! as a pipe is as good as creating it, while any other failure is fatal to
//! that source. The functions here classify the creation outcome; the
//! filesystem call itself is made by the surrounding process.

use vstd::prelude::*;

verus! {

/// What the filesystem reported when the named pipe was created, as the
/// caller observed it.
#[derive(Clone, Copy, Debug, PartialEq, Eq, Structural)]
pub enum PipeCreateResult {
    /// The pipe did not exist and was created.
    Created,
    /// The path already existed; the pipe is presumed in place.
    AlreadyExists,
    /// Creation failed for some other reason.
    Failed,
}

/// The piped byte source's verdict on a creation outcome.
#[derive(Clone, Copy, Debug, PartialEq, Eq, Structural)]
pub enum PipeSetup {
    /// The pipe is in place; the source may open it and start reading.
    Ready,
    /// The pipe cannot be had; setting up this source is abandoned.
    Fatal,
}

/// The verdict a creation outcome earns: ready when the pipe was created or
/// was already there, fatal otherwise.
pub open spec fn pipe_setup_spec(r: PipeCreateResult) -> PipeSetup {
    match r {
        PipeCreateResult::Created => PipeSetup::Ready,
        PipeCreateResult::AlreadyExists => PipeSetup::Ready,
        PipeCreateResult::Failed => PipeSetup::Fatal,
    }
}

/// Decide whether the piped source may proceed after attempting to create
/// the pipe. Creating the pipe when it already exists is not an error.
pub fn pipe_setup_outcome(r: PipeCreateResult) -> (s: PipeSetup)
    ensures
        s == pipe_setup_spec(r),
        s is Ready <==> (r is Created || r is AlreadyExists),
        s is Fatal <==> r is Failed,
{
    match r {
        PipeCreateResult::Created => PipeSetup::Ready,
        PipeCreateResult::AlreadyExists => PipeSetup::Ready,
        PipeCreateResult::Failed => PipeSetup::Fatal,
    }
}

/// Idempotence of pipe creation: an attempt that finds the pipe already in
/// place is judged exactly as a successful creation is — the source
/// proceeds, and no outcome other than an outright failure is fatal.
pub proof fn lemma_pipe_creation_idempotent()
    ensures
        pipe_setup_spec(PipeCreateResult::AlreadyExists) == pipe_setup_spec(
            PipeCreateResult::Created,
        ),
        pipe_setup_spec(PipeCreateResult::AlreadyExists) is Ready,
{
}

} // verus!
