//! The global download queue: its size, its workers, and what a worker
//! does when a job comes back.

use vstd::prelude::*;
use crate::model::DownloadAnswer;
use crate::pipeline::ProcessResult;

verus! {

/// How many jobs the queue holds before producers wait.
pub const QUEUE_CAPACITY: usize = 1024;

/// How many workers drain the queue.
pub const WORKERS: usize = 4;

/// What a worker does when the pipeline comes back with a job.
#[derive(Debug)]
pub enum WorkerStep {
    /// The job is done: the node's journal directory is removed, then
    /// the coordinator is told, and where that went well the result is
    /// shown.
    Finalize { working_path: Vec<String>, answer: DownloadAnswer },
    /// The job failed: the message is logged, and the worker goes on.
    Log { message: String },
}

/// Why a job could not be queued.
#[derive(Debug, Clone, Copy, PartialEq, Eq, Structural)]
pub enum QueueError {
    /// The queue was not set up.
    NotInitialized,
    /// The queue is full.
    Busy,
    /// The queue was closed.
    Closed,
}

/// The message of a queue error.
pub fn queue_message(e: QueueError) -> (m: &'static str)
    ensures
        m@ == match e {
            QueueError::NotInitialized => "download queue not initialized"@,
            QueueError::Busy => "no available capacity"@,
            QueueError::Closed => "channel closed"@,
        },
{
    match e {
        QueueError::NotInitialized => "download queue not initialized",
        QueueError::Busy => "no available capacity",
        QueueError::Closed => "channel closed",
    }
}

/// A job is taken without waiting where the queue is set up and not
/// full.
pub open spec fn admission(initialized: bool, waiting: usize, capacity: usize) -> Result<
    (),
    QueueError,
> {
    if !initialized {
        Err(QueueError::NotInitialized)
    } else if waiting >= capacity {
        Err(QueueError::Busy)
    } else {
        Ok(())
    }
}

/// Whether a job can be taken without waiting, given the number of jobs
/// that wait and the queue's capacity.
pub fn try_enqueue(initialized: bool, waiting: usize, capacity: usize) -> (r: Result<
    (),
    QueueError,
>)
    ensures
        r == admission(initialized, waiting, capacity),
{
    if !initialized {
        Err(QueueError::NotInitialized)
    } else if waiting >= capacity {
        Err(QueueError::Busy)
    } else {
        Ok(())
    }
}

/// The answer with which a leaf of a playlist is finalized: what the
/// leaf saved, under the leaf's label, for the entry that the playlist was
/// queued for.
pub fn leaf_answer(entry: &str, leaf: ProcessResult) -> (answer: DownloadAnswer)
    ensures
        answer.path == leaf.saved_path,
        answer.name@ == entry@,
        answer.playlist == leaf.playlist,
{
    DownloadAnswer { path: leaf.saved_path, name: entry.to_owned(), playlist: leaf.playlist }
}

/// A finished job is finalized under its journal directory, with the
/// answer that names what was saved; a failed one is logged.
pub open spec fn finalized(outcome: Result<ProcessResult, String>, step: WorkerStep) -> bool {
    match outcome {
        Ok(result) => {
            &&& step matches WorkerStep::Finalize { working_path, answer }
            &&& working_path@ == result.working_path@
            &&& answer.path == result.saved_path
            &&& answer.name == result.name
            &&& answer.playlist == result.playlist
        },
        Err(e) => step matches WorkerStep::Log { message } && message@ == "download error: "@ + e@,
    }
}

/// The worker's step for the outcome of a job.
pub fn finalize_process(outcome: Result<ProcessResult, String>) -> (step: WorkerStep)
    ensures
        finalized(outcome, step),
{
    match outcome {
        Ok(result) => {
            let working_path = crate::pipeline::clone_texts(&result.working_path);
            let answer = DownloadAnswer {
                path: result.saved_path,
                name: result.name,
                playlist: result.playlist,
            };
            WorkerStep::Finalize { working_path, answer }
        },
        Err(e) => WorkerStep::Log { message: crate::text::joined("download error: ", e.as_str()) },
    }
}

} // verus!
