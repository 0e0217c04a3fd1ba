use audio_server::command::{Command, Role, COMMAND_QUEUE_CAPACITY, DEFAULT_RECORDING_MILLIS};
use audio_server::session::{Action, PipelineHandle, SessionState};
use audio_server::timer::{AutoStopTimer, TimerStep};

/// The pipelines and timers that the actions of a session make and unmake.
struct Engine {
    running: Vec<(Role, u64)>,
    timers: Vec<u64>,
    started: Vec<u64>,
    most_at_once: usize,
}

impl Engine {
    fn new() -> Engine {
        Engine { running: Vec::new(), timers: Vec::new(), started: Vec::new(), most_at_once: 0 }
    }

    fn count(&self, role: Role) -> usize {
        self.running.iter().filter(|(r, _)| *r == role).count()
    }

    fn perform(&mut self, actions: &[Action]) {
        for action in actions {
            match action {
                Action::Start { role, pipeline, .. } => {
                    assert!(!self.started.contains(pipeline), "identity used twice");
                    self.started.push(*pipeline);
                    self.running.push((*role, *pipeline));
                }
                Action::Stop { role, pipeline } => {
                    let at = self.running.iter().position(|p| *p == (*role, *pipeline));
                    self.running.remove(at.expect("stop of a pipeline that does not run"));
                }
                Action::ArmTimer { pipeline, .. } => {
                    assert!(self.running.contains(&(Role::Recorder, *pipeline)));
                    assert!(!self.timers.contains(pipeline));
                    self.timers.push(*pipeline);
                }
                Action::CancelTimer { pipeline } => {
                    let at = self.timers.iter().position(|p| p == pipeline);
                    self.timers.remove(at.expect("cancel of a timer that is not armed"));
                }
                Action::Report { .. } => {}
            }
            assert!(self.count(Role::Player) <= 1);
            assert!(self.count(Role::Recorder) <= 1);
            for timer in &self.timers {
                assert!(self.running.contains(&(Role::Recorder, *timer)));
            }
            self.most_at_once = self.most_at_once.max(self.running.len());
        }
    }
}

fn play(path: &str) -> Command {
    Command::Play { path: path.to_string() }
}

fn record(path: &str, duration: Option<u64>) -> Command {
    Command::Record { path: path.to_string(), duration }
}

fn handle(id: u64, path: &str, auto_stop: Option<u64>) -> PipelineHandle {
    PipelineHandle { id, path: path.to_string(), auto_stop }
}

#[test]
fn new_session_is_idle() {
    let session = SessionState::new();
    assert_eq!(session.active(Role::Player), None);
    assert_eq!(session.active(Role::Recorder), None);
}

#[test]
fn play_starts_a_player() {
    let mut session = SessionState::new();
    let actions = session.apply(play("a.ogg"));
    assert_eq!(
        actions,
        vec![Action::Start { role: Role::Player, pipeline: 0, path: "a.ogg".to_string() }]
    );
    assert_eq!(session.active(Role::Player), Some(&handle(0, "a.ogg", None)));
    assert_eq!(session.active(Role::Recorder), None);
}

#[test]
fn play_then_play_leaves_one_player() {
    let mut session = SessionState::new();
    let mut engine = Engine::new();
    engine.perform(&session.apply(play("A.ogg")));
    let actions = session.apply(play("B.ogg"));
    assert_eq!(
        actions,
        vec![
            Action::Stop { role: Role::Player, pipeline: 0 },
            Action::Start { role: Role::Player, pipeline: 1, path: "B.ogg".to_string() },
        ]
    );
    engine.perform(&actions);
    assert_eq!(engine.running, vec![(Role::Player, 1)]);
    assert_eq!(session.active(Role::Player), Some(&handle(1, "B.ogg", None)));
}

#[test]
fn record_arms_a_timer_for_its_duration() {
    let mut session = SessionState::new();
    let actions = session.apply(record("r.ogg", Some(2_000)));
    assert_eq!(
        actions,
        vec![
            Action::Start { role: Role::Recorder, pipeline: 0, path: "r.ogg".to_string() },
            Action::ArmTimer { pipeline: 0, duration: 2_000 },
        ]
    );
    assert_eq!(session.active(Role::Recorder), Some(&handle(0, "r.ogg", Some(2_000))));
}

#[test]
fn record_without_duration_records_one_minute() {
    assert_eq!(DEFAULT_RECORDING_MILLIS, 60_000);
    let mut session = SessionState::new();
    let actions = session.apply(record("r.ogg", None));
    assert_eq!(actions[1], Action::ArmTimer { pipeline: 0, duration: 60_000 });
    assert_eq!(session.active(Role::Recorder), Some(&handle(0, "r.ogg", Some(60_000))));
}

#[test]
fn record_then_record_replaces_recorder_and_timer() {
    let mut session = SessionState::new();
    let mut engine = Engine::new();
    engine.perform(&session.apply(record("a.ogg", Some(500))));
    let actions = session.apply(record("b.ogg", Some(700)));
    assert_eq!(
        actions,
        vec![
            Action::CancelTimer { pipeline: 0 },
            Action::Stop { role: Role::Recorder, pipeline: 0 },
            Action::Start { role: Role::Recorder, pipeline: 1, path: "b.ogg".to_string() },
            Action::ArmTimer { pipeline: 1, duration: 700 },
        ]
    );
    engine.perform(&actions);
    assert_eq!(engine.running, vec![(Role::Recorder, 1)]);
    assert_eq!(engine.timers, vec![1]);
}

#[test]
fn stop_is_a_no_op_when_idle() {
    let mut session = SessionState::new();
    assert_eq!(session.apply(Command::StopPlaying), Vec::new());
    assert_eq!(session.apply(Command::StopRecording), Vec::new());
    assert_eq!(session.active(Role::Player), None);
    assert_eq!(session.active(Role::Recorder), None);
}

#[test]
fn stop_playing_stops_the_player_once() {
    let mut session = SessionState::new();
    session.apply(play("a.ogg"));
    assert_eq!(
        session.apply(Command::StopPlaying),
        vec![Action::Stop { role: Role::Player, pipeline: 0 }]
    );
    assert_eq!(session.active(Role::Player), None);
    assert_eq!(session.apply(Command::StopPlaying), Vec::new());
}

#[test]
fn stop_recording_cancels_the_timer_first() {
    let mut session = SessionState::new();
    session.apply(record("r.ogg", Some(10_000)));
    assert_eq!(
        session.apply(Command::StopRecording),
        vec![
            Action::CancelTimer { pipeline: 0 },
            Action::Stop { role: Role::Recorder, pipeline: 0 },
        ]
    );
    assert_eq!(session.active(Role::Recorder), None);
}

#[test]
fn timer_notice_after_stop_recording_stops_nothing() {
    let mut session = SessionState::new();
    let mut engine = Engine::new();
    engine.perform(&session.apply(record("r.ogg", Some(10_000))));
    engine.perform(&session.apply(Command::StopRecording));
    // The timer had fired just before it was cancelled.
    let late = session.apply(Command::PipelineFinished { role: Role::Recorder, pipeline: 0 });
    assert_eq!(late, Vec::new());
    engine.perform(&late);
    assert!(engine.running.is_empty());
    // Nor does it touch a recording that was started since.
    engine.perform(&session.apply(record("next.ogg", Some(10_000))));
    let late = session.apply(Command::PipelineFinished { role: Role::Recorder, pipeline: 0 });
    assert_eq!(late, Vec::new());
    assert_eq!(session.active(Role::Recorder), Some(&handle(1, "next.ogg", Some(10_000))));
}

#[test]
fn recording_ends_by_itself_when_its_time_is_up() {
    let mut session = SessionState::new();
    let mut engine = Engine::new();
    let actions = session.apply(record("r.ogg", Some(2_000)));
    engine.perform(&actions);
    let (pipeline, duration) = match actions[1] {
        Action::ArmTimer { pipeline, duration } => (pipeline, duration),
        _ => panic!("no timer armed"),
    };
    // The waiter of the timer, on a clock that starts at 5000.
    let timer = AutoStopTimer::arm(pipeline, 5_000, duration);
    let mut now = 5_000;
    let notice = loop {
        match timer.poll(false, now) {
            TimerStep::Wait { millis } => now += millis,
            TimerStep::Expired { notice } => break notice,
            TimerStep::Disarmed => panic!("nobody cancelled the timer"),
        }
    };
    assert!(now >= 7_000 && now < 7_000 + 100);
    let last = session.apply(notice);
    assert_eq!(
        last,
        vec![
            Action::CancelTimer { pipeline: 0 },
            Action::Stop { role: Role::Recorder, pipeline: 0 },
        ]
    );
    engine.perform(&last);
    assert_eq!(session.active(Role::Recorder), None);
    assert!(engine.running.is_empty());
    assert!(engine.timers.is_empty());
}

#[test]
fn finished_player_becomes_idle() {
    let mut session = SessionState::new();
    session.apply(play("a.ogg"));
    let actions = session.apply(Command::PipelineFinished { role: Role::Player, pipeline: 0 });
    assert_eq!(actions, vec![Action::Stop { role: Role::Player, pipeline: 0 }]);
    assert_eq!(session.active(Role::Player), None);
}

#[test]
fn failed_pipeline_is_released_and_reported() {
    let mut session = SessionState::new();
    session.apply(record("r.ogg", None));
    let actions = session.apply(Command::PipelineFailed {
        role: Role::Recorder,
        pipeline: 0,
        reason: "no microphone".to_string(),
    });
    assert_eq!(
        actions,
        vec![
            Action::CancelTimer { pipeline: 0 },
            Action::Stop { role: Role::Recorder, pipeline: 0 },
            Action::Report { role: Role::Recorder, reason: "no microphone".to_string() },
        ]
    );
    assert_eq!(session.active(Role::Recorder), None);
    // The failure is not retried: the next command finds the slot idle.
    assert_eq!(session.apply(Command::StopRecording), Vec::new());
}

#[test]
fn failure_of_a_replaced_pipeline_is_ignored() {
    let mut session = SessionState::new();
    session.apply(play("A.ogg"));
    session.apply(play("B.ogg"));
    let actions = session.apply(Command::PipelineFailed {
        role: Role::Player,
        pipeline: 0,
        reason: "late".to_string(),
    });
    assert_eq!(actions, Vec::new());
    assert_eq!(session.active(Role::Player), Some(&handle(1, "B.ogg", None)));
}

#[test]
fn notice_for_the_other_role_is_ignored() {
    let mut session = SessionState::new();
    session.apply(play("A.ogg"));
    let actions = session.apply(Command::PipelineFinished { role: Role::Recorder, pipeline: 0 });
    assert_eq!(actions, Vec::new());
    assert_eq!(session.active(Role::Player), Some(&handle(0, "A.ogg", None)));
}

#[test]
fn roles_are_independent() {
    let mut session = SessionState::new();
    session.apply(record("r.ogg", Some(1_000)));
    session.apply(play("p.ogg"));
    // A stop of the player issued after the recorder started finds the
    // recorder active and leaves it so.
    assert_eq!(
        session.apply(Command::StopPlaying),
        vec![Action::Stop { role: Role::Player, pipeline: 1 }]
    );
    assert_eq!(session.active(Role::Recorder), Some(&handle(0, "r.ogg", Some(1_000))));
    assert_eq!(session.active(Role::Player), None);
}

#[test]
fn test_playback_recording() {
    let unit_file_name = "test_SDK_recording.ogg";
    let mut session = SessionState::new();
    let mut engine = Engine::new();

    // Record for ten seconds, stop after four.
    engine.perform(&session.apply(record(unit_file_name, Some(10_000))));
    let timer = AutoStopTimer::arm(0, 0, 10_000);
    assert_eq!(timer.poll(false, 4_000), TimerStep::Wait { millis: 100 });
    engine.perform(&session.apply(Command::StopRecording));
    assert_eq!(timer.poll(true, 4_000), TimerStep::Disarmed);
    assert!(engine.running.is_empty());

    // Play two seconds of the recording.
    engine.perform(&session.apply(play(unit_file_name)));
    assert_eq!(engine.running, vec![(Role::Player, 1)]);
    engine.perform(&session.apply(Command::StopPlaying));
    assert!(engine.running.is_empty());
    assert!(engine.timers.is_empty());
}

#[test]
fn test_record_n_replay() {
    let path_str = "Reachy_SDK_audio_server/test_SDK_recording.ogg";
    let mut session = SessionState::new();
    let mut engine = Engine::new();

    let actions = session.apply(record(path_str, Some(10_000)));
    assert_eq!(
        actions[0],
        Action::Start { role: Role::Recorder, pipeline: 0, path: path_str.to_string() }
    );
    engine.perform(&actions);
    engine.perform(&session.apply(Command::StopRecording));

    let actions = session.apply(play(path_str));
    assert_eq!(
        actions,
        vec![Action::Start { role: Role::Player, pipeline: 1, path: path_str.to_string() }]
    );
    engine.perform(&actions);
    engine.perform(&session.apply(Command::StopPlaying));
    assert_eq!(session.active(Role::Player), None);
    assert_eq!(session.active(Role::Recorder), None);
    assert_eq!(engine.started, vec![0, 1]);
}

#[test]
fn any_sequence_keeps_one_pipeline_per_role() {
    let mut session = SessionState::new();
    let mut engine = Engine::new();
    let mut state: u32 = 7;
    for _ in 0..5_000 {
        state = state.wrapping_mul(1_664_525).wrapping_add(1_013_904_223);
        let pick = (state >> 16) % 8;
        let id = ((state >> 8) % 16) as u64;
        let command = match pick {
            0 => play("p.ogg"),
            1 => record("r.ogg", Some(1_000)),
            2 => record("r.ogg", None),
            3 => Command::StopPlaying,
            4 => Command::StopRecording,
            5 => Command::PipelineFinished { role: Role::Recorder, pipeline: id },
            6 => Command::PipelineFinished { role: Role::Player, pipeline: id },
            _ => Command::PipelineFailed {
                role: Role::Player,
                pipeline: id,
                reason: "broken".to_string(),
            },
        };
        let actions = session.apply(command);
        engine.perform(&actions);
        assert_eq!(engine.count(Role::Player), session.active(Role::Player).iter().count());
        assert_eq!(engine.count(Role::Recorder), session.active(Role::Recorder).iter().count());
    }
    assert!(engine.most_at_once <= 2);
    assert!(engine.started.len() > 100);
}

#[test]
fn identities_count_up_from_where_the_session_starts() {
    let mut session = SessionState::starting_at(41);
    session.apply(play("a.ogg"));
    session.apply(record("b.ogg", None));
    assert_eq!(session.active(Role::Player).map(|h| h.id), Some(41));
    assert_eq!(session.active(Role::Recorder).map(|h| h.id), Some(42));
}

#[test]
fn request_is_refused_when_identities_run_out() {
    let mut session = SessionState::starting_at(u64::MAX - 1);
    let actions = session.apply(play("last.ogg"));
    assert_eq!(
        actions,
        vec![Action::Start {
            role: Role::Player,
            pipeline: u64::MAX - 1,
            path: "last.ogg".to_string(),
        }]
    );
    let refused = session.apply(play("none.ogg"));
    assert_eq!(
        refused,
        vec![Action::Report {
            role: Role::Player,
            reason: "No pipeline identity left".to_string(),
        }]
    );
    // The player that runs is left alone.
    assert_eq!(session.active(Role::Player), Some(&handle(u64::MAX - 1, "last.ogg", None)));
    let refused = session.apply(record("none.ogg", Some(5)));
    assert_eq!(
        refused,
        vec![Action::Report {
            role: Role::Recorder,
            reason: "No pipeline identity left".to_string(),
        }]
    );
    assert_eq!(session.active(Role::Recorder), None);
}

#[test]
fn command_builders_build_requests() {
    assert_eq!(Command::play("a.ogg".to_string()), play("a.ogg"));
    assert_eq!(Command::record("b.ogg".to_string(), Some(3)), record("b.ogg", Some(3)));
    assert_eq!(Command::record("b.ogg".to_string(), None), record("b.ogg", None));
}

#[test]
fn command_queue_holds_two() {
    assert_eq!(COMMAND_QUEUE_CAPACITY, 2);
}
