//! The session orchestrator: it owns at most one playback and at most one
//! recording pipeline and turns each command into the actions that its
//! caller is to carry out on the pipelines and their timers.

use vstd::prelude::*;
use vstd::string::StringExecFns;
use crate::command::{Command, CommandView, PipelineId, Role, DEFAULT_RECORDING_MILLIS};

verus! {

/// What the session knows of a pipeline that it has started.
#[derive(Debug, PartialEq, Eq)]
pub struct PipelineHandle {
    /// The pipeline's identity.
    pub id: PipelineId,
    /// The file that it plays or records.
    pub path: String,
    /// The time in milliseconds after which its timer stops it; recordings
    /// only.
    pub auto_stop: Option<u64>,
}

/// Mathematical value of a [`PipelineHandle`].
pub struct HandleModel {
    pub id: PipelineId,
    pub path: Seq<char>,
    pub auto_stop: Option<u64>,
}

impl View for PipelineHandle {
    type V = HandleModel;

    open spec fn view(&self) -> HandleModel {
        HandleModel { id: self.id, path: self.path@, auto_stop: self.auto_stop }
    }
}

/// What the caller is to do for the session, in the order given.
#[derive(Debug, PartialEq, Eq)]
pub enum Action {
    /// Cancel the auto-stop timer of `pipeline` and wait until it is gone.
    CancelTimer { pipeline: PipelineId },
    /// Stop `pipeline` and let go of it.
    Stop { role: Role, pipeline: PipelineId },
    /// Build a pipeline for `role` on the file at `path` and start it.
    Start { role: Role, pipeline: PipelineId, path: String },
    /// Arm a timer that ends `pipeline` after `duration` milliseconds.
    ArmTimer { pipeline: PipelineId, duration: u64 },
    /// Make `reason` known: something went wrong on the side of `role`.
    Report { role: Role, reason: String },
}

/// Mathematical value of an [`Action`].
pub enum ActionView {
    CancelTimer { pipeline: PipelineId },
    Stop { role: Role, pipeline: PipelineId },
    Start { role: Role, pipeline: PipelineId, path: Seq<char> },
    ArmTimer { pipeline: PipelineId, duration: u64 },
    Report { role: Role, reason: Seq<char> },
}

impl View for Action {
    type V = ActionView;

    open spec fn view(&self) -> ActionView {
        match self {
            Action::CancelTimer { pipeline } => ActionView::CancelTimer { pipeline: *pipeline },
            Action::Stop { role, pipeline } => ActionView::Stop { role: *role, pipeline: *pipeline },
            Action::Start { role, pipeline, path } => ActionView::Start {
                role: *role,
                pipeline: *pipeline,
                path: path@,
            },
            Action::ArmTimer { pipeline, duration } => ActionView::ArmTimer {
                pipeline: *pipeline,
                duration: *duration,
            },
            Action::Report { role, reason } => ActionView::Report { role: *role, reason: reason@ },
        }
    }
}

/// The values of a list of actions, in the same order.
pub open spec fn action_views(actions: Seq<Action>) -> Seq<ActionView> {
    actions.map_values(|a: Action| a@)
}

/// The report of a command that was refused because every pipeline identity
/// has been given out.
pub open spec fn identities_exhausted() -> Seq<char> {
    "No pipeline identity left"@
}

/// Mathematical value of a [`SessionState`].
pub struct SessionModel {
    pub player: Option<HandleModel>,
    pub recorder: Option<HandleModel>,
    /// The identity that the next pipeline gets.
    pub next_id: PipelineId,
}

impl SessionModel {
    /// The session in which nothing plays and nothing is recorded.
    pub open spec fn initial() -> SessionModel {
        SessionModel { player: None, recorder: None, next_id: 0 }
    }

    /// The pipeline that `role` holds, if it is active.
    pub open spec fn active(self, role: Role) -> Option<HandleModel> {
        match role {
            Role::Player => self.player,
            Role::Recorder => self.recorder,
        }
    }

    /// This session with `handle` in the slot of `role`.
    pub open spec fn with(self, role: Role, handle: Option<HandleModel>) -> SessionModel {
        match role {
            Role::Player => SessionModel { player: handle, ..self },
            Role::Recorder => SessionModel { recorder: handle, ..self },
        }
    }

    /// Whether `pipeline` is the one that `role` holds right now.
    pub open spec fn holds(self, role: Role, pipeline: PipelineId) -> bool {
        self.active(role) matches Some(handle) && handle.id == pipeline
    }

    /// A session is well formed when its pipelines have distinct identities
    /// that were given out already, and exactly the recorder has a timer.
    pub open spec fn wf(self) -> bool {
        &&& self.player matches Some(handle) ==> handle.id < self.next_id && handle.auto_stop is None
        &&& self.recorder matches Some(handle) ==> handle.id < self.next_id
            && handle.auto_stop is Some
        &&& self.player is Some && self.recorder is Some ==> self.player->0.id
            != self.recorder->0.id
    }

    /// The actions that end what `role` holds: its timer is cancelled before
    /// the pipeline is stopped. None where the slot is idle.
    pub open spec fn release(self, role: Role) -> Seq<ActionView> {
        match self.active(role) {
            None => Seq::empty(),
            Some(handle) => {
                let stop = seq![ActionView::Stop { role, pipeline: handle.id }];
                match handle.auto_stop {
                    Some(_) => seq![ActionView::CancelTimer { pipeline: handle.id }] + stop,
                    None => stop,
                }
            },
        }
    }

    /// The actions that bring up a new pipeline `handle` for `role`: it is
    /// started, then its timer is armed.
    pub open spec fn bring_up(role: Role, handle: HandleModel) -> Seq<ActionView> {
        let start = seq![ActionView::Start { role, pipeline: handle.id, path: handle.path }];
        match handle.auto_stop {
            Some(duration) => start + seq![
                ActionView::ArmTimer { pipeline: handle.id, duration },
            ],
            None => start,
        }
    }

    /// Makes `role` idle.
    pub open spec fn stop(self, role: Role) -> (SessionModel, Seq<ActionView>) {
        (self.with(role, None), self.release(role))
    }

    /// Puts a new pipeline on the file at `path` in the slot of `role`, after
    /// ending what the slot holds. Where no identity is left the request is
    /// refused and the session stays as it is.
    pub open spec fn start(self, role: Role, path: Seq<char>, auto_stop: Option<u64>) -> (
        SessionModel,
        Seq<ActionView>,
    ) {
        if self.next_id == u64::MAX {
            (self, seq![ActionView::Report { role, reason: identities_exhausted() }])
        } else {
            let handle = HandleModel { id: self.next_id, path, auto_stop };
            (
                SessionModel {
                    next_id: (self.next_id + 1) as u64,
                    ..self.with(role, Some(handle))
                },
                self.release(role) + Self::bring_up(role, handle),
            )
        }
    }

    /// The session after `command`, and the actions that the command asks
    /// for. A notice about a pipeline that the session no longer holds
    /// changes nothing.
    pub open spec fn step(self, command: CommandView) -> (SessionModel, Seq<ActionView>) {
        match command {
            CommandView::Play { path } => self.start(Role::Player, path, None),
            CommandView::Record { path, duration } => self.start(
                Role::Recorder,
                path,
                Some(
                    match duration {
                        Some(millis) => millis,
                        None => DEFAULT_RECORDING_MILLIS,
                    },
                ),
            ),
            CommandView::StopPlaying => self.stop(Role::Player),
            CommandView::StopRecording => self.stop(Role::Recorder),
            CommandView::PipelineFinished { role, pipeline } => if self.holds(role, pipeline) {
                self.stop(role)
            } else {
                (self, Seq::empty())
            },
            CommandView::PipelineFailed { role, pipeline, reason } => if self.holds(
                role,
                pipeline,
            ) {
                (
                    self.with(role, None),
                    self.release(role) + seq![ActionView::Report { role, reason }],
                )
            } else {
                (self, Seq::empty())
            },
        }
    }
}

/// The state of a session: what plays, what is being recorded, and the
/// identity that the next pipeline gets.
#[derive(Debug)]
pub struct SessionState {
    player: Option<PipelineHandle>,
    recorder: Option<PipelineHandle>,
    next_id: PipelineId,
}

/// The value of an optional handle.
pub open spec fn handle_view(handle: Option<PipelineHandle>) -> Option<HandleModel> {
    match handle {
        Some(h) => Some(h@),
        None => None,
    }
}

impl View for SessionState {
    type V = SessionModel;

    closed spec fn view(&self) -> SessionModel {
        SessionModel {
            player: handle_view(self.player),
            recorder: handle_view(self.recorder),
            next_id: self.next_id,
        }
    }
}

impl SessionState {
    #[verifier::type_invariant]
    spec fn well_formed(&self) -> bool {
        self@.wf()
    }

    /// A session in which nothing plays and nothing is recorded.
    pub fn new() -> (session: SessionState)
        ensures
            session@ == SessionModel::initial(),
    {
        SessionState { player: None, recorder: None, next_id: 0 }
    }

    /// An idle session whose first pipeline gets the identity `first`: for
    /// a caller that has given out the identities below it already.
    pub fn starting_at(first: PipelineId) -> (session: SessionState)
        ensures
            session@ == (SessionModel { player: None, recorder: None, next_id: first }),
    {
        SessionState { player: None, recorder: None, next_id: first }
    }

    /// The pipeline that `role` holds, if it is active.
    pub fn active(&self, role: Role) -> (handle: Option<&PipelineHandle>)
        ensures
            self@.wf(),
            match handle {
                Some(h) => self@.active(role) == Some(h@),
                None => self@.active(role) is None,
            },
    {
        proof {
            use_type_invariant(self);
        }
        match role {
            Role::Player => self.player.as_ref(),
            Role::Recorder => self.recorder.as_ref(),
        }
    }

    /// Processes `command` and returns the actions that it asks for, in the
    /// order in which they are to be carried out.
    pub fn apply(&mut self, command: Command) -> (actions: Vec<Action>)
        ensures
            old(self)@.wf(),
            final(self)@.wf(),
            (final(self)@, action_views(actions@)) == old(self)@.step(command@),
    {
        proof {
            use_type_invariant(&*self);
        }
        match command {
            Command::Play { path } => self.start(Role::Player, path, None),
            Command::Record { path, duration } => {
                let millis = match duration {
                    Some(millis) => millis,
                    None => DEFAULT_RECORDING_MILLIS,
                };
                self.start(Role::Recorder, path, Some(millis))
            },
            Command::StopPlaying => self.stop(Role::Player),
            Command::StopRecording => self.stop(Role::Recorder),
            Command::PipelineFinished { role, pipeline } => {
                if self.holds(role, pipeline) {
                    self.stop(role)
                } else {
                    Vec::new()
                }
            },
            Command::PipelineFailed { role, pipeline, reason } => {
                if self.holds(role, pipeline) {
                    let mut actions = self.stop(role);
                    actions.push(Action::Report { role, reason });
                    actions
                } else {
                    Vec::new()
                }
            },
        }
    }

    /// Whether `pipeline` is the one that `role` holds right now.
    fn holds(&self, role: Role, pipeline: PipelineId) -> (held: bool)
        ensures
            held == self@.holds(role, pipeline),
    {
        let slot = match role {
            Role::Player => &self.player,
            Role::Recorder => &self.recorder,
        };
        match slot {
            Some(handle) => handle.id == pipeline,
            None => false,
        }
    }

    /// The actions that end what `role` holds.
    fn release(&self, role: Role) -> (actions: Vec<Action>)
        ensures
            action_views(actions@) == self@.release(role),
    {
        let slot = match role {
            Role::Player => &self.player,
            Role::Recorder => &self.recorder,
        };
        let mut actions: Vec<Action> = Vec::new();
        match slot {
            Some(handle) => {
                if handle.auto_stop.is_some() {
                    actions.push(Action::CancelTimer { pipeline: handle.id });
                }
                actions.push(Action::Stop { role, pipeline: handle.id });
            },
            None => {},
        }
        assert(action_views(actions@) =~= self@.release(role));
        actions
    }

    /// Makes `role` idle.
    fn stop(&mut self, role: Role) -> (actions: Vec<Action>)
        requires
            old(self)@.wf(),
        ensures
            final(self)@.wf(),
            (final(self)@, action_views(actions@)) == old(self)@.stop(role),
    {
        let actions = self.release(role);
        match role {
            Role::Player => {
                self.player = None;
            },
            Role::Recorder => {
                self.recorder = None;
            },
        }
        actions
    }

    /// Puts a new pipeline on the file at `path` in the slot of `role`.
    fn start(&mut self, role: Role, path: String, auto_stop: Option<u64>) -> (actions: Vec<Action>)
        requires
            old(self)@.wf(),
            (role == Role::Recorder) == (auto_stop is Some),
        ensures
            final(self)@.wf(),
            (final(self)@, action_views(actions@)) == old(self)@.start(role, path@, auto_stop),
    {
        if self.next_id == u64::MAX {
            let mut actions: Vec<Action> = Vec::new();
            actions.push(
                Action::Report { role, reason: String::from_str("No pipeline identity left") },
            );
            assert(action_views(actions@) =~= old(self)@.start(role, path@, auto_stop).1);
            return actions;
        }
        let id = self.next_id;
        let mut actions = self.release(role);
        actions.push(Action::Start { role, pipeline: id, path: path.clone() });
        match auto_stop {
            Some(duration) => {
                actions.push(Action::ArmTimer { pipeline: id, duration });
            },
            None => {},
        }
        self.next_id = id + 1;
        let handle = Some(PipelineHandle { id, path, auto_stop });
        match role {
            Role::Player => {
                self.player = handle;
            },
            Role::Recorder => {
                self.recorder = handle;
            },
        }
        assert(action_views(actions@) =~= old(self)@.start(role, path@, auto_stop).1);
        actions
    }
}

/// The slot that `command` is about.
pub open spec fn role_of(command: CommandView) -> Role {
    match command {
        CommandView::Play { .. } => Role::Player,
        CommandView::Record { .. } => Role::Recorder,
        CommandView::StopPlaying => Role::Player,
        CommandView::StopRecording => Role::Recorder,
        CommandView::PipelineFinished { role, .. } => role,
        CommandView::PipelineFailed { role, .. } => role,
    }
}

/// Once the recording was stopped, the notice of its timer, whenever it
/// comes and whichever pipeline it names, stops nothing a second time: it
/// asks for no action and leaves the session as it is.
pub proof fn law_stop_recording_silences_timer(session: SessionModel, pipeline: PipelineId)
    ensures
        session.step(CommandView::StopRecording).0.recorder is None,
        session.step(CommandView::StopRecording).0.step(
            CommandView::PipelineFinished { role: Role::Recorder, pipeline },
        ) == (session.step(CommandView::StopRecording).0, Seq::<ActionView>::empty()),
{
}

/// Stopping a slot twice is stopping it once: the second stop asks for
/// nothing and changes nothing.
pub proof fn law_stop_is_idempotent(session: SessionModel, role: Role)
    ensures
        session.stop(role).0.stop(role) == (session.stop(role).0, Seq::<ActionView>::empty()),
{
    assert(session.stop(role).0.with(role, None) == session.stop(role).0);
}

/// A command changes only the slot that it is about: whatever happens to
/// the player leaves the recorder as it was, and the other way round.
pub proof fn law_roles_do_not_interfere(session: SessionModel, command: CommandView, other: Role)
    requires
        other != role_of(command),
    ensures
        session.step(command).0.active(other) == session.active(other),
{
}

/// A notice about a pipeline that was replaced in the meantime is ignored:
/// it neither stops nor reports anything and leaves the new pipeline in its
/// slot. (Stated of sessions that have an identity left, so that the
/// replacement is accepted.)
pub proof fn law_superseded_notice_is_ignored(
    session: SessionModel,
    replacement: CommandView,
    notice: CommandView,
)
    requires
        session.wf(),
        session.next_id < u64::MAX,
        replacement is Play || replacement is Record,
        notice matches CommandView::PipelineFinished { role, pipeline } ==> role == role_of(
            replacement,
        ) && session.holds(role, pipeline),
        notice matches CommandView::PipelineFailed { role, pipeline, .. } ==> role == role_of(
            replacement,
        ) && session.holds(role, pipeline),
        notice is PipelineFinished || notice is PipelineFailed,
    ensures
        session.step(replacement).0.step(notice) == (
            session.step(replacement).0,
            Seq::<ActionView>::empty(),
        ),
{
}

} // verus!
