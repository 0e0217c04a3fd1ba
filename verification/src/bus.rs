//! The bus monitor of a pipeline: it reads the messages that the pipeline
//! posts, keeps silent about all but the first that ends the stream, and
//! turns that one into a notice for the session.

use vstd::prelude::*;
use vstd::string::StringExecFns;
use crate::command::{Command, CommandView, PipelineId, Role};
use crate::pipeline::{notice_view, text_view};

verus! {

/// A message on the bus of a pipeline, as far as the monitor tells
/// messages apart.
#[derive(Debug, PartialEq, Eq)]
pub enum BusMessage {
    /// The stream came to its end.
    Eos,
    /// An element failed: `error` says how, `source` which element it was,
    /// and `debug` what else the element had to say.
    Error { source: Option<String>, error: String, debug: Option<String> },
    /// Any other message.
    Other,
}

/// Mathematical value of a [`BusMessage`].
pub enum BusMessageView {
    Eos,
    Error { source: Option<Seq<char>>, error: Seq<char>, debug: Option<Seq<char>> },
    Other,
}

impl View for BusMessage {
    type V = BusMessageView;

    open spec fn view(&self) -> BusMessageView {
        match self {
            BusMessage::Eos => BusMessageView::Eos,
            BusMessage::Error { source, error, debug } => BusMessageView::Error {
                source: text_view(*source),
                error: error@,
                debug: text_view(*debug),
            },
            BusMessage::Other => BusMessageView::Other,
        }
    }
}

/// The reason that a failure notice gives for an error message: the error,
/// behind the element it came from, if known, and before the element's
/// remarks in brackets, if any.
pub open spec fn failure_reason(
    source: Option<Seq<char>>,
    error: Seq<char>,
    debug: Option<Seq<char>>,
) -> Seq<char> {
    let origin = match source {
        Some(element) => element + ": "@,
        None => Seq::empty(),
    };
    let remarks = match debug {
        Some(text) => " ("@ + text + ")"@,
        None => Seq::empty(),
    };
    origin + error + remarks
}

/// The monitor of the bus of one pipeline.
#[derive(Clone, Copy, Debug, PartialEq, Eq, Structural)]
pub struct BusMonitor {
    /// The slot of the pipeline.
    pub role: Role,
    /// The pipeline whose bus is watched.
    pub pipeline: PipelineId,
    /// Whether the notice was given, so that the monitor has nothing more
    /// to say.
    pub ended: bool,
}

impl BusMonitor {
    /// The notice that `message` would give rise to on a bus that is still
    /// watched: none for messages that do not end the stream.
    pub open spec fn notice_for(self, message: BusMessageView) -> Option<CommandView> {
        match message {
            BusMessageView::Eos => Some(
                CommandView::PipelineFinished { role: self.role, pipeline: self.pipeline },
            ),
            BusMessageView::Error { source, error, debug } => Some(
                CommandView::PipelineFailed {
                    role: self.role,
                    pipeline: self.pipeline,
                    reason: failure_reason(source, error, debug),
                },
            ),
            BusMessageView::Other => None,
        }
    }

    /// The monitor after `message`, and the notice that it gives. A monitor
    /// that has given its notice gives no other.
    pub open spec fn spec_observe(self, message: BusMessageView) -> (
        BusMonitor,
        Option<CommandView>,
    ) {
        if self.ended {
            (self, None)
        } else {
            match self.notice_for(message) {
                Some(notice) => (BusMonitor { ended: true, ..self }, Some(notice)),
                None => (self, None),
            }
        }
    }

    /// The monitor after `messages`, and the notices that it gave, in
    /// order.
    pub open spec fn observe_all(self, messages: Seq<BusMessageView>) -> (
        BusMonitor,
        Seq<CommandView>,
    )
        decreases messages.len(),
    {
        if messages.len() == 0 {
            (self, Seq::empty())
        } else {
            let (before, notices) = self.observe_all(messages.drop_last());
            match before.spec_observe(messages.last()) {
                (after, Some(notice)) => (after, notices.push(notice)),
                (after, None) => (after, notices),
            }
        }
    }

    /// A monitor that starts to watch the bus of `pipeline`.
    pub fn new(role: Role, pipeline: PipelineId) -> (monitor: BusMonitor)
        ensures
            monitor == (BusMonitor { role, pipeline, ended: false }),
    {
        BusMonitor { role, pipeline, ended: false }
    }

    /// Whether the bus is to be watched further: until the notice is given.
    pub fn watching(&self) -> (watching: bool)
        ensures
            watching == !self.ended,
    {
        !self.ended
    }

    /// Takes the next message from the bus and returns the notice that the
    /// session is owed for it, if any.
    pub fn observe(&mut self, message: BusMessage) -> (notice: Option<Command>)
        ensures
            (*final(self), notice_view(notice)) == old(self).spec_observe(message@),
    {
        if self.ended {
            return None;
        }
        match message {
            BusMessage::Eos => {
                self.ended = true;
                Some(Command::PipelineFinished { role: self.role, pipeline: self.pipeline })
            },
            BusMessage::Error { source, error, debug } => {
                self.ended = true;
                Some(
                    Command::PipelineFailed {
                        role: self.role,
                        pipeline: self.pipeline,
                        reason: describe_failure(source, error, debug),
                    },
                )
            },
            BusMessage::Other => None,
        }
    }
}

/// Puts the reason of a failure notice together.
fn describe_failure(source: Option<String>, error: String, debug: Option<String>) -> (reason: String)
    ensures
        reason@ == failure_reason(text_view(source), error@, text_view(debug)),
{
    let origin = match source {
        Some(element) => element.concat(": "),
        None => String::new(),
    };
    let told = origin.concat(error.as_str());
    let reason = match debug {
        Some(text) => told.concat(" (").concat(text.as_str()).concat(")"),
        None => told,
    };
    proof {
        let e = Seq::<char>::empty();
        assert(e + error@ =~= error@);
        assert(told@ + e =~= told@);
        if debug is Some {
            assert(told@ + " ("@ + debug->0@ + ")"@ =~= told@ + (" ("@ + debug->0@ + ")"@));
        }
    }
    reason
}

/// However many messages a bus carries, its monitor gives at most one
/// notice, and none once it has ended.
pub proof fn law_monitor_gives_one_notice_at_most(
    monitor: BusMonitor,
    messages: Seq<BusMessageView>,
)
    ensures
        monitor.observe_all(messages).1.len() <= 1,
        monitor.ended ==> monitor.observe_all(messages) == (monitor, Seq::<CommandView>::empty()),
        monitor.observe_all(messages).1.len() == 1 ==> monitor.observe_all(messages).0.ended,
        !monitor.ended && monitor.observe_all(messages).1.len() == 0 ==> monitor.observe_all(
            messages,
        ).0 == monitor,
    decreases messages.len(),
{
    if messages.len() > 0 {
        law_monitor_gives_one_notice_at_most(monitor, messages.drop_last());
    }
}

/// The notice of a monitor is that of the first message that ends the
/// stream: the messages before it pass in silence, and whatever follows it
/// is not looked at.
pub proof fn law_monitor_reports_first_ending(
    monitor: BusMonitor,
    messages: Seq<BusMessageView>,
    k: int,
)
    requires
        !monitor.ended,
        0 <= k < messages.len(),
        !(messages[k] is Other),
        forall|i: int| 0 <= i < k ==> messages[i] is Other,
    ensures
        monitor.observe_all(messages) == (
            BusMonitor { ended: true, ..monitor },
            seq![monitor.notice_for(messages[k])->0],
        ),
    decreases messages.len(),
{
    let front = messages.drop_last();
    if k == messages.len() - 1 {
        law_monitor_is_silent_until_ending(monitor, front);
        assert(Seq::<CommandView>::empty().push(monitor.notice_for(messages[k])->0) =~= seq![
            monitor.notice_for(messages[k])->0,
        ]);
    } else {
        law_monitor_reports_first_ending(monitor, front, k);
    }
}

/// As long as no message ends the stream the monitor says nothing and goes
/// on watching.
pub proof fn law_monitor_is_silent_until_ending(monitor: BusMonitor, messages: Seq<BusMessageView>)
    requires
        forall|i: int| 0 <= i < messages.len() ==> messages[i] is Other,
    ensures
        monitor.observe_all(messages) == (monitor, Seq::<CommandView>::empty()),
    decreases messages.len(),
{
    if messages.len() > 0 {
        law_monitor_is_silent_until_ending(monitor, messages.drop_last());
    }
}

} // verus!
