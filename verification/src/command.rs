//! The commands that a session processes, one at a time and in the order
//! in which they were submitted.

use vstd::prelude::*;

verus! {

/// One of the two independent pipeline slots of a session.
#[derive(Clone, Copy, Debug, PartialEq, Eq, Structural)]
pub enum Role {
    /// Plays a sound file back.
    Player,
    /// Records into a sound file.
    Recorder,
}

/// Identifies one pipeline among all that a session ever starts.
pub type PipelineId = u64;

/// The recording time, in milliseconds, of a recording that asks for none.
pub const DEFAULT_RECORDING_MILLIS: u64 = 60_000;

/// The number of commands that may wait for the session at any time.
pub const COMMAND_QUEUE_CAPACITY: usize = 2;

/// A request to the session, or a notice from one of its pipelines.
#[derive(Debug, PartialEq, Eq)]
pub enum Command {
    /// Play the file at `path`, in place of whatever is playing.
    Play { path: String },
    /// Record into the file at `path` for `duration` milliseconds, in place
    /// of whatever is being recorded.
    Record { path: String, duration: Option<u64> },
    /// Stop the playback, if any.
    StopPlaying,
    /// Stop the recording, if any.
    StopRecording,
    /// The pipeline came to its natural end: the stream ended, or the
    /// recording time ran out.
    PipelineFinished { role: Role, pipeline: PipelineId },
    /// The pipeline could not be started, or broke while it ran.
    PipelineFailed { role: Role, pipeline: PipelineId, reason: String },
}

/// Mathematical value of a [`Command`].
pub enum CommandView {
    Play { path: Seq<char> },
    Record { path: Seq<char>, duration: Option<u64> },
    StopPlaying,
    StopRecording,
    PipelineFinished { role: Role, pipeline: PipelineId },
    PipelineFailed { role: Role, pipeline: PipelineId, reason: Seq<char> },
}

impl View for Command {
    type V = CommandView;

    open spec fn view(&self) -> CommandView {
        match self {
            Command::Play { path } => CommandView::Play { path: path@ },
            Command::Record { path, duration } => CommandView::Record {
                path: path@,
                duration: *duration,
            },
            Command::StopPlaying => CommandView::StopPlaying,
            Command::StopRecording => CommandView::StopRecording,
            Command::PipelineFinished { role, pipeline } => CommandView::PipelineFinished {
                role: *role,
                pipeline: *pipeline,
            },
            Command::PipelineFailed { role, pipeline, reason } => CommandView::PipelineFailed {
                role: *role,
                pipeline: *pipeline,
                reason: reason@,
            },
        }
    }
}

impl Command {
    /// The request to play the file at `path`.
    pub fn play(path: String) -> (command: Command)
        ensures
            command@ == (CommandView::Play { path: path@ }),
    {
        Command::Play { path }
    }

    /// The request to record into the file at `path` for `duration`
    /// milliseconds, or for the default time where `duration` is `None`.
    pub fn record(path: String, duration: Option<u64>) -> (command: Command)
        ensures
            command@ == (CommandView::Record { path: path@, duration }),
    {
        Command::Record { path, duration }
    }
}

} // verus!
