//! What the media engine reports about a pipeline, in the engine's own
//! terms, and what each report means for the session.

use vstd::prelude::*;
use vstd::string::StringExecFns;
use crate::command::{Command, CommandView, PipelineId, Role};
use crate::text::{chars_of, starts_with};

verus! {

/// The outcome of asking a pipeline to change its state.
#[derive(Clone, Copy, Debug, PartialEq, Eq, Structural)]
pub enum StateChange {
    /// The pipeline is in the state that was asked for.
    Success,
    /// The pipeline will get there on its own.
    Async,
    /// The pipeline changed its state but has no data to show for it.
    NoPreroll,
    /// The pipeline refused.
    Failure,
}

/// The state that a pipeline is asked to go to.
#[derive(Clone, Copy, Debug, PartialEq, Eq, Structural)]
pub enum Target {
    /// Running: playing or recording.
    Playing,
    /// Stopped, with everything released.
    Null,
}

/// What came of building a pipeline and starting it.
#[derive(Debug, PartialEq, Eq)]
pub enum StartOutcome {
    /// The pipeline could not be built; `reason` says why.
    NotBuilt { reason: String },
    /// The pipeline was built and asked to run, with this outcome.
    Changed { outcome: StateChange },
}

/// Mathematical value of a [`StartOutcome`].
pub enum StartOutcomeView {
    NotBuilt { reason: Seq<char> },
    Changed { outcome: StateChange },
}

impl View for StartOutcome {
    type V = StartOutcomeView;

    open spec fn view(&self) -> StartOutcomeView {
        match self {
            StartOutcome::NotBuilt { reason } => StartOutcomeView::NotBuilt { reason: reason@ },
            StartOutcome::Changed { outcome } => StartOutcomeView::Changed { outcome: *outcome },
        }
    }
}

/// The kind of stream that a decoder offers on a new pad.
#[derive(Clone, Copy, Debug, PartialEq, Eq, Structural)]
pub enum PadKind {
    /// Sound: to be linked to the audio sink.
    Audio,
    /// Pictures: not played, reported as an error.
    Video,
    /// Anything else: left alone.
    Other,
    /// The pad does not say what it carries: reported as a warning.
    Untyped,
}

/// The value of an optional text.
pub open spec fn text_view(text: Option<String>) -> Option<Seq<char>> {
    match text {
        Some(t) => Some(t@),
        None => None,
    }
}

/// The value of an optional command.
pub open spec fn notice_view(notice: Option<Command>) -> Option<CommandView> {
    match notice {
        Some(n) => Some(n@),
        None => None,
    }
}

/// The complaint about a state change to `target` that ended in `outcome`;
/// none where the pipeline is, or will be, in that state.
pub open spec fn transition_error(target: Target, outcome: StateChange) -> Option<Seq<char>> {
    match outcome {
        StateChange::Success | StateChange::Async => None,
        StateChange::NoPreroll => Some(
            "Failed to transition pipeline to PLAYING: No preroll data available"@,
        ),
        StateChange::Failure => Some(
            match target {
                Target::Playing => "Failed to transition pipeline to Playing: StateChangeError"@,
                Target::Null => "Failed to transition pipeline to Null: StateChangeError"@,
            },
        ),
    }
}

/// The notice that the session is owed after an attempt to start
/// `pipeline`: none where the pipeline runs, or will; a failure with its
/// reason where it could not be built or did not start.
pub open spec fn start_notice_of(role: Role, pipeline: PipelineId, outcome: StartOutcomeView)
    -> Option<CommandView> {
    match outcome {
        StartOutcomeView::NotBuilt { reason } => Some(
            CommandView::PipelineFailed { role, pipeline, reason },
        ),
        StartOutcomeView::Changed { outcome } => match transition_error(Target::Playing, outcome) {
            Some(reason) => Some(CommandView::PipelineFailed { role, pipeline, reason }),
            None => None,
        },
    }
}

/// The kind of a pad whose stream calls itself `media_type`: sound where
/// the name begins with `audio/`, pictures where it begins with `video/`.
pub open spec fn pad_kind(media_type: Option<Seq<char>>) -> PadKind {
    match media_type {
        None => PadKind::Untyped,
        Some(name) => if "audio/"@.is_prefix_of(name) {
            PadKind::Audio
        } else if "video/"@.is_prefix_of(name) {
            PadKind::Video
        } else {
            PadKind::Other
        },
    }
}

/// Says what is wrong with the outcome of a state change, if anything.
pub fn state_change_error(target: Target, outcome: StateChange) -> (complaint: Option<String>)
    ensures
        text_view(complaint) == transition_error(target, outcome),
{
    match outcome {
        StateChange::Success | StateChange::Async => None,
        StateChange::NoPreroll => Some(
            String::from_str("Failed to transition pipeline to PLAYING: No preroll data available"),
        ),
        StateChange::Failure => Some(
            match target {
                Target::Playing => String::from_str(
                    "Failed to transition pipeline to Playing: StateChangeError",
                ),
                Target::Null => String::from_str(
                    "Failed to transition pipeline to Null: StateChangeError",
                ),
            },
        ),
    }
}

/// Turns the outcome of starting `pipeline` into the notice that the
/// session is owed, if any.
pub fn start_notice(role: Role, pipeline: PipelineId, outcome: StartOutcome) -> (notice: Option<
    Command,
>)
    ensures
        notice_view(notice) == start_notice_of(role, pipeline, outcome@),
{
    match outcome {
        StartOutcome::NotBuilt { reason } => Some(Command::PipelineFailed { role, pipeline, reason }),
        StartOutcome::Changed { outcome } => match state_change_error(Target::Playing, outcome) {
            Some(reason) => Some(Command::PipelineFailed { role, pipeline, reason }),
            None => None,
        },
    }
}

/// Tells what a new pad of the decoder carries, from the name of its media
/// type.
pub fn classify_pad(media_type: Option<&str>) -> (kind: PadKind)
    ensures
        kind == pad_kind(
            match media_type {
                Some(name) => Some(name@),
                None => None,
            },
        ),
{
    match media_type {
        None => PadKind::Untyped,
        Some(name) => {
            let chars = chars_of(name);
            if starts_with(&chars, "audio/") {
                PadKind::Audio
            } else if starts_with(&chars, "video/") {
                PadKind::Video
            } else {
                PadKind::Other
            }
        },
    }
}

} // verus!
