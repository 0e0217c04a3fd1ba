//! The pipelines and timers that exist outside the session, as the actions
//! of the session make and unmake them. The laws at the end of this file
//! say what holds of them after any sequence of commands.

use vstd::prelude::*;
use crate::command::{CommandView, PipelineId, Role};
use crate::session::{ActionView, HandleModel, SessionModel};

verus! {

/// The pipelines and timers that the caller of a session has on its hands.
pub struct World {
    /// Every pipeline that was ever started.
    pub started: Set<PipelineId>,
    /// The pipelines that were started and not stopped since.
    pub running: Set<(Role, PipelineId)>,
    /// The pipelines whose timer was armed and not cancelled since.
    pub timers: Set<PipelineId>,
}

impl World {
    /// The world before the first command.
    pub open spec fn empty() -> World {
        World { started: Set::empty(), running: Set::empty(), timers: Set::empty() }
    }

    /// Whether `action` makes sense here: a pipeline is started once and
    /// under a new identity, stopped only while it runs; a timer is armed
    /// for a running recorder that has none, and cancelled only if armed.
    pub open spec fn permits(self, action: ActionView) -> bool {
        match action {
            ActionView::Start { role, pipeline, .. } => !self.started.contains(pipeline),
            ActionView::Stop { role, pipeline } => self.running.contains((role, pipeline)),
            ActionView::ArmTimer { pipeline, .. } => self.running.contains(
                (Role::Recorder, pipeline),
            ) && !self.timers.contains(pipeline),
            ActionView::CancelTimer { pipeline } => self.timers.contains(pipeline),
            ActionView::Report { .. } => true,
        }
    }

    /// The world once `action` is done.
    pub open spec fn perform(self, action: ActionView) -> World {
        match action {
            ActionView::Start { role, pipeline, .. } => World {
                started: self.started.insert(pipeline),
                running: self.running.insert((role, pipeline)),
                ..self
            },
            ActionView::Stop { role, pipeline } => World {
                running: self.running.remove((role, pipeline)),
                ..self
            },
            ActionView::ArmTimer { pipeline, .. } => World {
                timers: self.timers.insert(pipeline),
                ..self
            },
            ActionView::CancelTimer { pipeline } => World {
                timers: self.timers.remove(pipeline),
                ..self
            },
            ActionView::Report { .. } => self,
        }
    }

    /// The world once `actions` are done, first to last.
    pub open spec fn perform_all(self, actions: Seq<ActionView>) -> World
        decreases actions.len(),
    {
        if actions.len() == 0 {
            self
        } else {
            self.perform_all(actions.drop_last()).perform(actions.last())
        }
    }

    /// In a safe world each role has at most one running pipeline, every
    /// armed timer guards a running recorder, nothing runs that was not
    /// started, and no pipeline runs in both roles.
    pub open spec fn safe(self) -> bool {
        &&& forall|role: Role, a: PipelineId, b: PipelineId|
            self.running.contains((role, a)) && self.running.contains((role, b)) ==> a == b
        &&& forall|pipeline: PipelineId| #[trigger]
            self.timers.contains(pipeline) ==> self.running.contains((Role::Recorder, pipeline))
        &&& forall|role: Role, pipeline: PipelineId| #[trigger]
            self.running.contains((role, pipeline)) ==> self.started.contains(pipeline)
        &&& forall|pipeline: PipelineId|
            !(self.running.contains((Role::Player, pipeline)) && self.running.contains(
                (Role::Recorder, pipeline),
            ))
    }

    /// Whether `actions` can be done here one after the other with every
    /// action permitted where it stands and the world safe before, between
    /// and after them.
    pub open spec fn orderly(self, actions: Seq<ActionView>) -> bool
        decreases actions.len(),
    {
        &&& self.safe()
        &&& actions.len() > 0 ==> self.permits(actions[0]) && self.perform(actions[0]).orderly(
            actions.drop_first(),
        )
    }
}

/// The session after `commands`, processed in order from `session`, and all
/// actions that they asked for, in order.
pub open spec fn run(session: SessionModel, commands: Seq<CommandView>) -> (
    SessionModel,
    Seq<ActionView>,
)
    decreases commands.len(),
{
    if commands.len() == 0 {
        (session, Seq::empty())
    } else {
        let (before, trace) = run(session, commands.drop_last());
        let (after, actions) = before.step(commands.last());
        (after, trace + actions)
    }
}

/// Doing a list of actions is doing its first and then the rest.
pub proof fn lemma_perform_first(world: World, actions: Seq<ActionView>)
    requires
        actions.len() > 0,
    ensures
        world.perform_all(actions) == world.perform(actions[0]).perform_all(actions.drop_first()),
    decreases actions.len(),
{
    let rest = actions.drop_first();
    let next = world.perform(actions[0]);
    if actions.len() == 1 {
        assert(world.perform_all(actions.drop_last()) == world);
        assert(next.perform_all(rest) == next);
    } else {
        let front = actions.drop_last();
        lemma_perform_first(world, front);
        assert(front.drop_first() =~= rest.drop_last());
        assert(next.perform_all(rest) == next.perform_all(rest.drop_last()).perform(rest.last()));
    }
}

/// Doing two lists of actions in a row is doing their concatenation.
pub proof fn lemma_perform_concat(world: World, front: Seq<ActionView>, back: Seq<ActionView>)
    ensures
        world.perform_all(front + back) == world.perform_all(front).perform_all(back),
    decreases back.len(),
{
    if back.len() == 0 {
        assert(front + back =~= front);
    } else {
        lemma_perform_concat(world, front, back.drop_last());
        assert((front + back).drop_last() =~= front + back.drop_last());
    }
}

/// Two orderly lists of actions in a row are orderly as one.
pub proof fn lemma_orderly_concat(world: World, front: Seq<ActionView>, back: Seq<ActionView>)
    requires
        world.orderly(front),
        world.perform_all(front).orderly(back),
    ensures
        world.orderly(front + back),
    decreases front.len(),
{
    if front.len() == 0 {
        assert(front + back =~= back);
    } else {
        lemma_perform_first(world, front);
        lemma_orderly_concat(world.perform(front[0]), front.drop_first(), back);
        assert((front + back).drop_first() =~= front.drop_first() + back);
    }
}

/// In an orderly list every action is permitted where it stands, and the
/// world is safe at every point.
pub proof fn lemma_orderly_at(world: World, actions: Seq<ActionView>, k: int)
    requires
        world.orderly(actions),
        0 <= k <= actions.len(),
    ensures
        world.perform_all(actions.take(k)).safe(),
        k < actions.len() ==> world.perform_all(actions.take(k)).permits(actions[k]),
    decreases k,
{
    if k == 0 {
        assert(actions.take(0) =~= Seq::<ActionView>::empty());
    } else {
        lemma_orderly_at(world.perform(actions[0]), actions.drop_first(), k - 1);
        lemma_perform_first(world, actions.take(k));
        assert(actions.take(k).drop_first() =~= actions.drop_first().take(k - 1));
    }
}

/// Whether `world` holds exactly what `session` believes it holds: the
/// running pipelines are those in the session's slots and were started, the
/// armed timers are those of its recorder, and every identity that was given
/// out lies below the next one.
pub open spec fn agrees(session: SessionModel, world: World) -> bool {
    &&& forall|role: Role, pipeline: PipelineId| #[trigger]
        world.running.contains((role, pipeline)) <==> session.holds(role, pipeline)
    &&& forall|pipeline: PipelineId| #[trigger]
        world.timers.contains(pipeline) <==> session.holds(Role::Recorder, pipeline)
    &&& forall|pipeline: PipelineId| #[trigger]
        world.started.contains(pipeline) ==> pipeline < session.next_id
    &&& forall|role: Role, pipeline: PipelineId| #[trigger]
        world.running.contains((role, pipeline)) ==> world.started.contains(pipeline)
}

/// A single action that is permitted and leads from a safe world to a safe
/// world is orderly.
proof fn lemma_orderly_one(world: World, action: ActionView)
    requires
        world.safe(),
        world.permits(action),
        world.perform(action).safe(),
    ensures
        world.orderly(seq![action]),
        world.perform_all(seq![action]) == world.perform(action),
{
    let actions = seq![action];
    assert(actions.drop_first() =~= Seq::<ActionView>::empty());
    assert(world.perform(action).orderly(actions.drop_first()));
    lemma_perform_first(world, actions);
    assert(world.perform(action).perform_all(actions.drop_first()) == world.perform(action));
}

/// Two actions in a row, each permitted where it stands and each leading to
/// a safe world, are orderly.
proof fn lemma_orderly_two(world: World, first: ActionView, second: ActionView)
    requires
        world.safe(),
        world.permits(first),
        world.perform(first).safe(),
        world.perform(first).permits(second),
        world.perform(first).perform(second).safe(),
    ensures
        world.orderly(seq![first, second]),
        world.perform_all(seq![first, second]) == world.perform(first).perform(second),
{
    lemma_orderly_one(world, first);
    lemma_orderly_one(world.perform(first), second);
    lemma_orderly_concat(world, seq![first], seq![second]);
    lemma_perform_concat(world, seq![first], seq![second]);
    assert(seq![first] + seq![second] =~= seq![first, second]);
}

/// Ending what a slot holds is orderly and leaves the world as the session
/// with that slot idle believes it.
proof fn lemma_release(session: SessionModel, world: World, role: Role)
    requires
        session.wf(),
        agrees(session, world),
    ensures
        world.safe(),
        world.orderly(session.release(role)),
        session.with(role, None).wf(),
        agrees(session.with(role, None), world.perform_all(session.release(role))),
{
    let actions = session.release(role);
    let idle = session.with(role, None);
    match session.active(role) {
        None => {
            assert(actions =~= Seq::<ActionView>::empty());
            assert(idle == session);
        },
        Some(handle) => {
            assert(session.holds(role, handle.id));
            let stop = ActionView::Stop { role, pipeline: handle.id };
            match handle.auto_stop {
                Some(_) => {
                    let cancel = ActionView::CancelTimer { pipeline: handle.id };
                    assert(actions =~= seq![cancel, stop]);
                    assert(session.holds(Role::Recorder, handle.id));
                    lemma_orderly_two(world, cancel, stop);
                },
                None => {
                    assert(actions =~= seq![stop]);
                    lemma_orderly_one(world, stop);
                },
            }
        },
    }
}

/// Bringing up a pipeline under the next identity in an idle slot is orderly
/// and leaves the world as the session that holds it believes it.
proof fn lemma_bring_up(session: SessionModel, world: World, role: Role, handle: HandleModel)
    requires
        session.wf(),
        agrees(session, world),
        session.active(role) is None,
        session.next_id < u64::MAX,
        handle.id == session.next_id,
        (role == Role::Recorder) == (handle.auto_stop is Some),
    ensures
        world.orderly(SessionModel::bring_up(role, handle)),
        (SessionModel { next_id: (session.next_id + 1) as u64, ..session.with(role, Some(handle)) }).wf(),
        agrees(
            SessionModel { next_id: (session.next_id + 1) as u64, ..session.with(role, Some(handle)) },
            world.perform_all(SessionModel::bring_up(role, handle)),
        ),
{
    let actions = SessionModel::bring_up(role, handle);
    let start = ActionView::Start { role, pipeline: handle.id, path: handle.path };
    match handle.auto_stop {
        Some(duration) => {
            let arm = ActionView::ArmTimer { pipeline: handle.id, duration };
            assert(actions =~= seq![start, arm]);
            lemma_orderly_two(world, start, arm);
        },
        None => {
            assert(actions =~= seq![start]);
            lemma_orderly_one(world, start);
        },
    }
}

/// Whatever the command, the actions that a well-formed session asks for
/// are orderly in a world that agrees with it, and leave the world in
/// agreement with the session after the command.
pub proof fn lemma_step_is_orderly(session: SessionModel, world: World, command: CommandView)
    requires
        session.wf(),
        agrees(session, world),
    ensures
        session.step(command).0.wf(),
        world.orderly(session.step(command).1),
        agrees(session.step(command).0, world.perform_all(session.step(command).1)),
{
    let (after, actions) = session.step(command);
    match command {
        CommandView::Play { path } => {
            lemma_start_is_orderly(session, world, Role::Player, path, None);
        },
        CommandView::Record { path, duration } => {
            let millis = match duration {
                Some(millis) => millis,
                None => crate::command::DEFAULT_RECORDING_MILLIS,
            };
            lemma_start_is_orderly(session, world, Role::Recorder, path, Some(millis));
        },
        CommandView::StopPlaying => {
            lemma_release(session, world, Role::Player);
        },
        CommandView::StopRecording => {
            lemma_release(session, world, Role::Recorder);
        },
        CommandView::PipelineFinished { role, pipeline } => {
            lemma_release(session, world, role);
            if !session.holds(role, pipeline) {
                assert(world.perform_all(actions) == world);
            }
        },
        CommandView::PipelineFailed { role, pipeline, reason } => {
            lemma_release(session, world, role);
            if session.holds(role, pipeline) {
                let report = ActionView::Report { role, reason };
                let released = world.perform_all(session.release(role));
                lemma_orderly_at(world, session.release(role), session.release(role).len() as int);
                assert(session.release(role).take(session.release(role).len() as int)
                    =~= session.release(role));
                lemma_orderly_one(released, report);
                lemma_orderly_concat(world, session.release(role), seq![report]);
                lemma_perform_concat(world, session.release(role), seq![report]);
            } else {
                assert(world.perform_all(actions) == world);
            }
        },
    }
}

/// Replacing what a slot holds is orderly: the old pipeline is gone before
/// the new one starts.
proof fn lemma_start_is_orderly(
    session: SessionModel,
    world: World,
    role: Role,
    path: Seq<char>,
    auto_stop: Option<u64>,
)
    requires
        session.wf(),
        agrees(session, world),
        (role == Role::Recorder) == (auto_stop is Some),
    ensures
        session.start(role, path, auto_stop).0.wf(),
        world.orderly(session.start(role, path, auto_stop).1),
        agrees(
            session.start(role, path, auto_stop).0,
            world.perform_all(session.start(role, path, auto_stop).1),
        ),
{
    lemma_release(session, world, role);
    if session.next_id == u64::MAX {
        let report = ActionView::Report { role, reason: crate::session::identities_exhausted() };
        lemma_orderly_one(world, report);
    } else {
        let handle = HandleModel { id: session.next_id, path, auto_stop };
        let idle = session.with(role, None);
        let released = world.perform_all(session.release(role));
        lemma_bring_up(idle, released, role, handle);
        lemma_orderly_concat(world, session.release(role), SessionModel::bring_up(role, handle));
        lemma_perform_concat(world, session.release(role), SessionModel::bring_up(role, handle));
        assert(idle.with(role, Some(handle)) == session.with(role, Some(handle)));
    }
}

/// Commands processed from a well-formed session ask for orderly actions
/// and leave the world in agreement with the session.
pub proof fn lemma_run_is_orderly(session: SessionModel, world: World, commands: Seq<CommandView>)
    requires
        session.wf(),
        agrees(session, world),
    ensures
        run(session, commands).0.wf(),
        world.orderly(run(session, commands).1),
        agrees(run(session, commands).0, world.perform_all(run(session, commands).1)),
    decreases commands.len(),
{
    if commands.len() == 0 {
        lemma_release(session, world, Role::Player);
    } else {
        let (before, trace) = run(session, commands.drop_last());
        lemma_run_is_orderly(session, world, commands.drop_last());
        lemma_step_is_orderly(before, world.perform_all(trace), commands.last());
        let actions = before.step(commands.last()).1;
        lemma_orderly_concat(world, trace, actions);
        lemma_perform_concat(world, trace, actions);
    }
}

/// What is left of an orderly list after its first `k` actions is orderly
/// in the world that those actions leave.
pub proof fn lemma_orderly_rest(world: World, actions: Seq<ActionView>, k: int)
    requires
        world.orderly(actions),
        0 <= k <= actions.len(),
    ensures
        world.perform_all(actions.take(k)).orderly(actions.skip(k)),
    decreases k,
{
    if k == 0 {
        assert(actions.take(0) =~= Seq::<ActionView>::empty());
        assert(actions.skip(0) =~= actions);
    } else {
        lemma_orderly_rest(world.perform(actions[0]), actions.drop_first(), k - 1);
        lemma_perform_first(world, actions.take(k));
        assert(actions.take(k).drop_first() =~= actions.drop_first().take(k - 1));
        assert(actions.drop_first().skip(k - 1) =~= actions.skip(k));
    }
}

/// A pipeline that was started and runs no longer is neither started nor
/// stopped by any action of an orderly list.
pub proof fn lemma_gone_for_good(
    world: World,
    actions: Seq<ActionView>,
    pipeline: PipelineId,
    k: int,
)
    requires
        world.orderly(actions),
        world.started.contains(pipeline),
        !world.running.contains((Role::Player, pipeline)),
        !world.running.contains((Role::Recorder, pipeline)),
        0 <= k < actions.len(),
    ensures
        !(actions[k] matches ActionView::Start { pipeline: p, .. } && p == pipeline),
        !(actions[k] matches ActionView::Stop { pipeline: p, .. } && p == pipeline),
    decreases k,
{
    if k > 0 {
        let next = world.perform(actions[0]);
        assert(!next.running.contains((Role::Player, pipeline)));
        assert(!next.running.contains((Role::Recorder, pipeline)));
        lemma_gone_for_good(next, actions.drop_first(), pipeline, k - 1);
    } else {
        match actions[0] {
            ActionView::Stop { role, pipeline: p } => {
                if p == pipeline {
                    assert(world.running.contains((role, pipeline)));
                }
            },
            _ => {},
        }
    }
}

/// Whatever commands a session receives from its beginning, and in whatever
/// order: at every point of the actions that it asks for, each role has at
/// most one running pipeline, every armed timer guards a running recorder,
/// and the next action is permitted, so that a pipeline is started under an
/// identity never used before and stopped only while it runs.
pub proof fn law_one_pipeline_per_role(commands: Seq<CommandView>, k: int)
    requires
        0 <= k <= run(SessionModel::initial(), commands).1.len(),
    ensures
        World::empty().perform_all(run(SessionModel::initial(), commands).1.take(k)).safe(),
        k < run(SessionModel::initial(), commands).1.len() ==> World::empty().perform_all(
            run(SessionModel::initial(), commands).1.take(k),
        ).permits(run(SessionModel::initial(), commands).1[k]),
{
    lemma_run_is_orderly(SessionModel::initial(), World::empty(), commands);
    lemma_orderly_at(World::empty(), run(SessionModel::initial(), commands).1, k);
}

/// Whatever commands a session receives from its beginning: once it has
/// asked to stop a pipeline, it never asks to stop or to start that pipeline
/// again.
pub proof fn law_stopped_once(commands: Seq<CommandView>, i: int, j: int)
    requires
        0 <= i < j < run(SessionModel::initial(), commands).1.len(),
        run(SessionModel::initial(), commands).1[i] is Stop,
    ensures
        !(run(SessionModel::initial(), commands).1[j] matches ActionView::Stop { pipeline, .. }
            && pipeline == run(SessionModel::initial(), commands).1[i]->Stop_pipeline),
        !(run(SessionModel::initial(), commands).1[j] matches ActionView::Start { pipeline, .. }
            && pipeline == run(SessionModel::initial(), commands).1[i]->Stop_pipeline),
{
    let trace = run(SessionModel::initial(), commands).1;
    let pipeline = trace[i]->Stop_pipeline;
    let role = trace[i]->Stop_role;
    lemma_run_is_orderly(SessionModel::initial(), World::empty(), commands);
    lemma_orderly_at(World::empty(), trace, i);
    lemma_orderly_at(World::empty(), trace, i + 1);
    lemma_orderly_rest(World::empty(), trace, i + 1);
    let before = World::empty().perform_all(trace.take(i));
    let after = World::empty().perform_all(trace.take(i + 1));
    assert(trace.take(i + 1).drop_last() =~= trace.take(i));
    assert(after == before.perform(trace[i]));
    assert(before.running.contains((role, pipeline)));
    lemma_gone_for_good(after, trace.skip(i + 1), pipeline, j - i - 1);
}

/// Playing one file and then another, with no stop in between, leaves
/// exactly one running player, the one on the second file: the pipeline on
/// the first file is stopped before the second is started. The recorder is
/// not touched. (Stated of sessions that have two identities left.)
pub proof fn law_play_replaces_player(
    session: SessionModel,
    world: World,
    first: Seq<char>,
    second: Seq<char>,
)
    requires
        session.wf(),
        agrees(session, world),
        session.next_id + 1 < u64::MAX,
    ensures
        ({
            let (played, _) = session.step(CommandView::Play { path: first });
            let (replaced, actions) = played.step(CommandView::Play { path: second });
            &&& played.player == Some(
                HandleModel { id: session.next_id, path: first, auto_stop: None },
            )
            &&& replaced.player == Some(
                HandleModel { id: (session.next_id + 1) as u64, path: second, auto_stop: None },
            )
            &&& replaced.recorder == session.recorder
            &&& actions == seq![
                ActionView::Stop { role: Role::Player, pipeline: session.next_id },
                ActionView::Start {
                    role: Role::Player,
                    pipeline: (session.next_id + 1) as u64,
                    path: second,
                },
            ]
        }),
        ({
            let commands = seq![
                CommandView::Play { path: first },
                CommandView::Play { path: second },
            ];
            let after = world.perform_all(run(session, commands).1);
            forall|pipeline: PipelineId|
                after.running.contains((Role::Player, pipeline)) <==> pipeline == session.next_id
                    + 1
        }),
{
    let (played, _) = session.step(CommandView::Play { path: first });
    let (replaced, actions) = played.step(CommandView::Play { path: second });
    assert(actions =~= seq![
        ActionView::Stop { role: Role::Player, pipeline: session.next_id },
        ActionView::Start {
            role: Role::Player,
            pipeline: (session.next_id + 1) as u64,
            path: second,
        },
    ]);
    let commands = seq![CommandView::Play { path: first }, CommandView::Play { path: second }];
    lemma_run_is_orderly(session, world, commands);
    assert(commands.drop_last() =~= seq![CommandView::Play { path: first }]);
    assert(commands.drop_last().drop_last() =~= Seq::<CommandView>::empty());
    assert(run(session, commands.drop_last().drop_last()).0 == session);
    assert(run(session, commands.drop_last()).0 == played);
    assert(run(session, commands).0 == replaced);
    let after = world.perform_all(run(session, commands).1);
    assert forall|pipeline: PipelineId|
        after.running.contains((Role::Player, pipeline)) <==> pipeline == session.next_id
            + 1 by {
        assert(replaced.holds(Role::Player, pipeline) <==> pipeline == session.next_id + 1);
    }
}

} // verus!
