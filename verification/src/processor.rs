//! The steps of the sources that feed a pipeline: what a source does next,
//! decided from what it holds and from what its output can take.

use vstd::prelude::*;
use crate::error::ErrorCode;

verus! {

/// What a processor asks of the pipeline next.
#[derive(Debug, Clone, Copy, PartialEq, Eq, Structural)]
pub enum Event {
    /// The output has what it needs for now.
    NeedConsume,
    /// The processor has work to do that waits for the outside.
    Async,
    /// The processor is done.
    Finished,
}

/// What a source does to its output in a step.
#[derive(Debug, Clone, Copy, PartialEq, Eq, Structural)]
pub enum OutputAction {
    /// Nothing.
    Leave,
    /// The output is closed.
    Finish,
    /// The block that the source holds is pushed, and its rows and bytes
    /// are counted as scanned.
    Push { rows: usize, bytes: usize },
}

/// What a source reads from holds, for one step: whether it is finished,
/// whether a block is at hand and how large, and what the output can take.
#[derive(Debug, Clone, Copy, PartialEq, Eq)]
pub struct SourceState {
    pub is_finished: bool,
    pub output_finished: bool,
    pub output_can_push: bool,
    /// The rows and bytes of the block at hand, if there is one.
    pub generated: Option<(usize, usize)>,
}

/// The step of a table source.
///
/// A source that is finished closes its output. One whose output is closed
/// is finished too. One whose output cannot take a block waits. Otherwise a
/// block at hand is pushed, and without one the source goes to fetch the
/// next. After a push the source holds no block.
pub fn source_event(state: SourceState) -> (r: (Event, OutputAction, Option<(usize, usize)>))
    ensures
        r == (if state.is_finished {
            (Event::Finished, OutputAction::Finish, state.generated)
        } else if state.output_finished {
            (Event::Finished, OutputAction::Leave, state.generated)
        } else if !state.output_can_push {
            (Event::NeedConsume, OutputAction::Leave, state.generated)
        } else {
            match state.generated {
                None => (Event::Async, OutputAction::Leave, None),
                Some((rows, bytes)) => (
                    Event::NeedConsume,
                    OutputAction::Push { rows, bytes },
                    None,
                ),
            }
        }),
{
    if state.is_finished {
        return (Event::Finished, OutputAction::Finish, state.generated);
    }
    if state.output_finished {
        return (Event::Finished, OutputAction::Leave, state.generated);
    }
    if !state.output_can_push {
        return (Event::NeedConsume, OutputAction::Leave, state.generated);
    }
    match state.generated {
        None => (Event::Async, OutputAction::Leave, None),
        Some((rows, bytes)) => (Event::NeedConsume, OutputAction::Push { rows, bytes }, None),
    }
}

/// What a source that reads a stream of batches found when it went to
/// fetch.
#[derive(Debug, Clone, Copy, PartialEq, Eq, Structural)]
pub enum Fetched {
    /// The open stream gave a batch.
    Batch,
    /// The open stream is at its end.
    StreamEnded,
    /// No stream was open, and a part is left to read.
    PartAvailable,
    /// No stream was open, and no part is left.
    NoPartLeft,
}

/// What a source does after it went to fetch.
#[derive(Debug, Clone, Copy, PartialEq, Eq, Structural)]
pub enum FetchAction {
    /// The batch becomes the block at hand; the stream stays open.
    KeepBatch,
    /// The stream is dropped; the next fetch opens another.
    DropStream,
    /// A stream is opened for the part.
    OpenStream,
    /// The source is finished.
    Finish,
}

/// The fetch of a table source that reads a stream of batches.
pub fn source_fetch(found: Fetched) -> (r: FetchAction)
    ensures
        r == (match found {
            Fetched::Batch => FetchAction::KeepBatch,
            Fetched::StreamEnded => FetchAction::DropStream,
            Fetched::PartAvailable => FetchAction::OpenStream,
            Fetched::NoPartLeft => FetchAction::Finish,
        }),
{
    match found {
        Fetched::Batch => FetchAction::KeepBatch,
        Fetched::StreamEnded => FetchAction::DropStream,
        Fetched::PartAvailable => FetchAction::OpenStream,
        Fetched::NoPartLeft => FetchAction::Finish,
    }
}

/// What came over the channel of pruned segments.
#[derive(Debug, PartialEq, Eq)]
pub enum Received<T> {
    /// A pruned segment.
    Segment(T),
    /// An error of the pruning.
    Failed(ErrorCode),
    /// The channel is closed.
    Closed,
}

/// What the source of pruned segments generates from what it received: a
/// segment is handed on, an error of the pruning is the source's error, and
/// a closed channel ends the source.
pub fn generate_from_received<T>(received: Received<T>) -> (r: Result<Option<T>, ErrorCode>)
    ensures
        r == (match received {
            Received::Segment(segment) => Ok(Some(segment)),
            Received::Failed(e) => Err(e),
            Received::Closed => Ok(None),
        }),
{
    match received {
        Received::Segment(segment) => Ok(Some(segment)),
        Received::Failed(e) => Err(e),
        Received::Closed => Ok(None),
    }
}

} // verus!
