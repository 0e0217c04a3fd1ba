use audio_server::command::{Command, Role};
use audio_server::timer::{AutoStopTimer, TimerStep, TIMER_GRANULARITY_MILLIS};

fn expired(pipeline: u64) -> TimerStep {
    TimerStep::Expired { notice: Command::PipelineFinished { role: Role::Recorder, pipeline } }
}

#[test]
fn granularity_is_a_tenth_of_a_second() {
    assert_eq!(TIMER_GRANULARITY_MILLIS, 100);
}

#[test]
fn arm_sets_the_deadline() {
    assert_eq!(AutoStopTimer::arm(3, 1_000, 2_000), AutoStopTimer { pipeline: 3, deadline: 3_000 });
    assert_eq!(AutoStopTimer::arm(0, 0, 0), AutoStopTimer { pipeline: 0, deadline: 0 });
}

#[test]
fn arm_stops_at_the_end_of_the_clock() {
    assert_eq!(AutoStopTimer::arm(1, u64::MAX - 5, 10).deadline, u64::MAX);
    assert_eq!(AutoStopTimer::arm(1, u64::MAX - 5, 5).deadline, u64::MAX);
    assert_eq!(AutoStopTimer::arm(1, u64::MAX - 5, 4).deadline, u64::MAX - 1);
    assert_eq!(AutoStopTimer::arm(1, 7, u64::MAX).deadline, u64::MAX);
}

#[test]
fn timer_waits_before_its_deadline() {
    let timer = AutoStopTimer::arm(9, 0, 2_000);
    assert_eq!(timer.poll(false, 0), TimerStep::Wait { millis: 100 });
    assert_eq!(timer.poll(false, 1_999), TimerStep::Wait { millis: 100 });
}

#[test]
fn timer_expires_from_its_deadline_on() {
    let timer = AutoStopTimer::arm(9, 0, 2_000);
    assert_eq!(timer.poll(false, 2_000), expired(9));
    assert_eq!(timer.poll(false, 2_001), expired(9));
    assert_eq!(timer.poll(false, u64::MAX), expired(9));
}

#[test]
fn cancelled_timer_never_expires() {
    let timer = AutoStopTimer::arm(9, 0, 2_000);
    assert_eq!(timer.poll(true, 0), TimerStep::Disarmed);
    assert_eq!(timer.poll(true, 2_000), TimerStep::Disarmed);
    assert_eq!(timer.poll(true, u64::MAX), TimerStep::Disarmed);
}

#[test]
fn two_second_recording_ends_within_a_granularity_of_its_deadline() {
    for start in [0u64, 1, 99, 100, 12_345] {
        let timer = AutoStopTimer::arm(0, start, 2_000);
        let mut now = start;
        let mut waits = 0;
        while let TimerStep::Wait { millis } = timer.poll(false, now) {
            now += millis;
            waits += 1;
        }
        assert_eq!(timer.poll(false, now), expired(0));
        assert_eq!(waits, 20);
        assert_eq!(now, start + 2_000);
    }
}

#[test]
fn deadline_between_two_looks_is_overshot_by_less_than_a_granularity() {
    let timer = AutoStopTimer::arm(0, 0, 2_050);
    let mut now = 0;
    while let TimerStep::Wait { millis } = timer.poll(false, now) {
        now += millis;
    }
    assert_eq!(now, 2_100);
    assert!(now < timer.deadline + TIMER_GRANULARITY_MILLIS);
}

#[test]
fn cancelling_while_waiting_ends_the_timer_silently() {
    let timer = AutoStopTimer::arm(4, 0, 2_000);
    let mut now = 0;
    let mut cancelled = false;
    let last = loop {
        match timer.poll(cancelled, now) {
            TimerStep::Wait { millis } => {
                now += millis;
                if now == 500 {
                    cancelled = true;
                }
            }
            other => break other,
        }
    };
    assert_eq!(last, TimerStep::Disarmed);
    assert_eq!(now, 500);
}
