//! The auto-stop timer of a recording. The timer does not touch the
//! pipeline: when its time is up it hands the session a notice, and the
//! session, which alone owns the pipeline, stops it. The caller owns the
//! clock and the waiting; this module decides what each look at the clock
//! means.

use vstd::prelude::*;
use crate::command::{Command, CommandView, PipelineId, Role, DEFAULT_RECORDING_MILLIS};
use crate::session::{ActionView, HandleModel, SessionModel};

verus! {

/// The longest time, in milliseconds, that a timer waits before it looks at
/// its cancellation flag again.
pub const TIMER_GRANULARITY_MILLIS: u64 = 100;

/// A timer armed for one recording pipeline. Times are milliseconds on a
/// clock that never goes back.
#[derive(Clone, Copy, Debug, PartialEq, Eq)]
pub struct AutoStopTimer {
    /// The pipeline that the timer guards.
    pub pipeline: PipelineId,
    /// The time from which on the recording is to end.
    pub deadline: u64,
}

/// What the waiter of a timer is to do after a look at flag and clock.
#[derive(Debug, PartialEq, Eq)]
pub enum TimerStep {
    /// The timer was cancelled: end without telling anyone.
    Disarmed,
    /// Time is up: hand `notice` to the session and end.
    Expired { notice: Command },
    /// Wait for `millis` milliseconds and look again.
    Wait { millis: u64 },
}

/// Mathematical value of a [`TimerStep`].
pub enum TimerStepView {
    Disarmed,
    Expired { notice: CommandView },
    Wait { millis: u64 },
}

impl View for TimerStep {
    type V = TimerStepView;

    open spec fn view(&self) -> TimerStepView {
        match self {
            TimerStep::Disarmed => TimerStepView::Disarmed,
            TimerStep::Expired { notice } => TimerStepView::Expired { notice: notice@ },
            TimerStep::Wait { millis } => TimerStepView::Wait { millis: *millis },
        }
    }
}

impl AutoStopTimer {
    /// The notice that this timer hands to the session when its time is up.
    pub open spec fn notice(self) -> CommandView {
        CommandView::PipelineFinished { role: Role::Recorder, pipeline: self.pipeline }
    }

    /// What a look at the flag and at the clock means: a cancelled timer
    /// ends silently whatever the time; otherwise it expires from its
    /// deadline on and waits before it.
    pub open spec fn spec_poll(self, cancelled: bool, now: u64) -> TimerStepView {
        if cancelled {
            TimerStepView::Disarmed
        } else if now < self.deadline {
            TimerStepView::Wait { millis: TIMER_GRANULARITY_MILLIS }
        } else {
            TimerStepView::Expired { notice: self.notice() }
        }
    }

    /// The number of waits of an uncancelled timer that is first polled at
    /// `start` and then after each wait, each wait taking as long as asked.
    pub open spec fn waits_from(self, start: u64) -> nat {
        if start >= self.deadline {
            0
        } else {
            ((self.deadline - start + TIMER_GRANULARITY_MILLIS - 1)
                / TIMER_GRANULARITY_MILLIS as int) as nat
        }
    }

    /// Arms a timer for `pipeline` at time `now` that expires `duration`
    /// milliseconds later, or at the end of the clock if that comes first.
    pub fn arm(pipeline: PipelineId, now: u64, duration: u64) -> (timer: AutoStopTimer)
        ensures
            timer.pipeline == pipeline,
            timer.deadline == if now + duration <= u64::MAX {
                now + duration
            } else {
                u64::MAX as int
            },
    {
        let deadline = if duration <= u64::MAX - now {
            now + duration
        } else {
            u64::MAX
        };
        AutoStopTimer { pipeline, deadline }
    }

    /// Decides what the waiter does next, given whether the timer was
    /// cancelled and what the clock says.
    pub fn poll(&self, cancelled: bool, now: u64) -> (step: TimerStep)
        ensures
            step@ == self.spec_poll(cancelled, now),
    {
        if cancelled {
            TimerStep::Disarmed
        } else if now < self.deadline {
            TimerStep::Wait { millis: TIMER_GRANULARITY_MILLIS }
        } else {
            TimerStep::Expired {
                notice: Command::PipelineFinished { role: Role::Recorder, pipeline: self.pipeline },
            }
        }
    }
}

/// A timer that is not cancelled expires by itself, and on time: polled
/// first at `start` and then after every wait, it waits `waits_from(start)`
/// times and expires at the next look, which comes no earlier than the
/// deadline and less than one granularity after it. (Stated of deadlines
/// that the clock can overshoot by one granularity.)
pub proof fn law_timer_expires_on_time(timer: AutoStopTimer, start: u64, k: nat)
    requires
        start <= timer.deadline,
        timer.deadline + TIMER_GRANULARITY_MILLIS <= u64::MAX,
        k <= timer.waits_from(start),
    ensures
        start + k * TIMER_GRANULARITY_MILLIS <= u64::MAX,
        k < timer.waits_from(start) ==> timer.spec_poll(
            false,
            (start + k * TIMER_GRANULARITY_MILLIS) as u64,
        ) == (TimerStepView::Wait { millis: TIMER_GRANULARITY_MILLIS }),
        k == timer.waits_from(start) ==> timer.spec_poll(
            false,
            (start + k * TIMER_GRANULARITY_MILLIS) as u64,
        ) == (TimerStepView::Expired { notice: timer.notice() }),
        timer.deadline <= start + timer.waits_from(start) * TIMER_GRANULARITY_MILLIS
            < timer.deadline + TIMER_GRANULARITY_MILLIS,
{
}

/// A cancelled timer never expires, whatever the clock says: cancelling
/// before the deadline keeps the timer from ending the recording.
pub proof fn law_cancelled_timer_stays_silent(timer: AutoStopTimer, now: u64)
    ensures
        timer.spec_poll(true, now) == TimerStepView::Disarmed,
{
}

/// A recording ends by itself: the session asks for a timer of the
/// recording's duration (of the default duration where none is given) on the
/// pipeline that it started, and the notice of that timer, with no stop
/// request from anyone, makes the recorder idle again: the timer is
/// cancelled and the pipeline stopped. (Stated of sessions that have an
/// identity left, so that the recording is accepted.)
pub proof fn law_recording_ends_by_itself(
    session: SessionModel,
    path: Seq<char>,
    duration: Option<u64>,
    now: u64,
)
    requires
        session.wf(),
        session.next_id < u64::MAX,
    ensures
        ({
            let millis = match duration {
                Some(millis) => millis,
                None => DEFAULT_RECORDING_MILLIS,
            };
            let (recording, actions) = session.step(CommandView::Record { path, duration });
            let timer = AutoStopTimer { pipeline: session.next_id, deadline: now };
            let (ended, last_actions) = recording.step(timer.notice());
            &&& recording.recorder == Some(
                HandleModel { id: session.next_id, path, auto_stop: Some(millis) },
            )
            &&& actions.len() >= 2
            &&& actions[actions.len() - 2] == (ActionView::Start {
                role: Role::Recorder,
                pipeline: session.next_id,
                path,
            })
            &&& actions.last() == (ActionView::ArmTimer {
                pipeline: session.next_id,
                duration: millis,
            })
            &&& ended.recorder is None
            &&& ended.player == session.player
            &&& last_actions == seq![
                ActionView::CancelTimer { pipeline: session.next_id },
                ActionView::Stop { role: Role::Recorder, pipeline: session.next_id },
            ]
        }),
{
    let (recording, actions) = session.step(CommandView::Record { path, duration });
    let timer = AutoStopTimer { pipeline: session.next_id, deadline: now };
    let (ended, last_actions) = recording.step(timer.notice());
    assert(last_actions =~= seq![
        ActionView::CancelTimer { pipeline: session.next_id },
        ActionView::Stop { role: Role::Recorder, pipeline: session.next_id },
    ]);
}

} // verus!
