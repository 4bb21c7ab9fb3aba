use red_tomato::pomodoro::Phase;
use red_tomato::pomodoro::PomodoroConfig;
use red_tomato::pomodoro::PomodoroState;
use red_tomato::pomodoro::TimerState;

fn config(focus: i64, short: i64, long: i64, before_long: u32) -> PomodoroConfig {
    PomodoroConfig {
        focus_seconds: focus,
        short_break_seconds: short,
        long_break_seconds: long,
        pomodoros_before_long: before_long,
    }
}

#[test]
fn default_config_is_classic_pomodoro() {
    let c = PomodoroConfig::default();
    assert_eq!(c.focus_seconds, 25 * 60);
    assert_eq!(c.short_break_seconds, 5 * 60);
    assert_eq!(c.long_break_seconds, 15 * 60);
    assert_eq!(c.pomodoros_before_long, 4);
    let s = PomodoroState::default();
    assert_eq!(s.phase, Phase::Focus);
    assert_eq!(s.state, TimerState::Idle);
    assert_eq!(s.remaining_seconds, 0);
    assert_eq!(s.phase_total_seconds, 0);
    assert_eq!(s.completed_pomodoros, 0);
}

#[test]
fn start_sets_full_duration_and_runs() {
    let mut s = PomodoroState::new(config(60, 30, 50, 4));
    s.start(1000);
    assert_eq!(s.state, TimerState::Running);
    assert_eq!(s.remaining_seconds, 60);
    assert_eq!(s.phase_total_seconds, 60);
    assert_eq!(s.last_tick_at, Some(1000));
    assert_eq!(s.progress(), 0);
    assert_eq!(s.remaining_display(), "01:00");
}

#[test]
fn end_to_end_focus_minute() {
    // focus_seconds = 60: start, tick at +30s, tick at +60s.
    let mut s = PomodoroState::new(config(60, 30, 50, 4));
    s.start(1000);
    s.tick(1030);
    assert_eq!(s.remaining_display(), "00:30");
    assert_eq!(s.progress(), 500);
    s.tick(1060);
    assert_eq!(s.phase, Phase::ShortBreak);
    assert_eq!(s.state, TimerState::Idle);
    assert_eq!(s.take_finished_phase(), Some(Phase::Focus));
    assert_eq!(s.take_last_completed_focus_duration(), Some(60));
}

#[test]
fn completion_mailboxes_drain_once() {
    let mut s = PomodoroState::new(config(10, 5, 7, 4));
    s.start(0);
    s.tick(10);
    assert_eq!(s.take_finished_phase(), Some(Phase::Focus));
    assert_eq!(s.take_finished_phase(), None);
    assert_eq!(s.take_last_completed_focus_duration(), Some(10));
    assert_eq!(s.take_last_completed_focus_duration(), None);
}

#[test]
fn break_completion_stages_no_focus_duration() {
    let mut s = PomodoroState::new(config(10, 5, 7, 4));
    s.set_phase(Phase::ShortBreak);
    s.start(0);
    s.tick(5);
    assert_eq!(s.take_finished_phase(), Some(Phase::ShortBreak));
    assert_eq!(s.take_last_completed_focus_duration(), None);
    assert_eq!(s.phase, Phase::Focus);
    assert_eq!(s.completed_pomodoros, 0);
}

#[test]
fn pause_freezes_countdown() {
    // D = 60, d1 = 10, arbitrary paused gap, d2 = 30: remaining = 60-10-30.
    let mut s = PomodoroState::new(config(60, 30, 50, 4));
    s.start(0);
    s.tick(10);
    assert_eq!(s.remaining_seconds, 50);
    s.toggle_pause(10);
    assert_eq!(s.state, TimerState::Paused);
    assert_eq!(s.last_tick_at, None);
    s.tick(100_000);
    assert_eq!(s.remaining_seconds, 50);
    s.toggle_pause(200_000);
    assert_eq!(s.state, TimerState::Running);
    s.tick(200_030);
    assert_eq!(s.remaining_seconds, 20);
}

#[test]
fn toggle_pause_is_noop_when_idle() {
    let mut s = PomodoroState::new(config(60, 30, 50, 4));
    s.toggle_pause(5);
    assert_eq!(s.state, TimerState::Idle);
    assert_eq!(s.last_tick_at, None);
}

#[test]
fn non_monotonic_and_subsecond_ticks_are_absorbed() {
    let mut s = PomodoroState::new(config(60, 30, 50, 4));
    s.start(1000);
    s.tick(1000);
    assert_eq!(s.remaining_seconds, 60);
    s.tick(990);
    assert_eq!(s.remaining_seconds, 60);
    s.tick(1001);
    assert_eq!(s.remaining_seconds, 59);
    assert_eq!(s.last_tick_at, Some(1001));
}

#[test]
fn tick_does_nothing_unless_running() {
    let mut s = PomodoroState::new(config(60, 30, 50, 4));
    s.tick(5000);
    assert_eq!(s.remaining_seconds, 0);
    assert_eq!(s.state, TimerState::Idle);
    s.start(0);
    s.tick(3);
    s.toggle_pause(3);
    s.tick(5000);
    assert_eq!(s.remaining_seconds, 57);
}

#[test]
fn countdown_is_monotonic_and_never_negative() {
    let mut s = PomodoroState::new(config(30, 10, 20, 4));
    s.start(0);
    let mut last = s.remaining_seconds;
    for now in [3, 3, 5, 11, 11, 29, 40, 41] {
        s.tick(now);
        assert!(s.remaining_seconds <= last);
        assert!(s.remaining_seconds >= 0);
        last = s.remaining_seconds;
    }
}

#[test]
fn overshooting_tick_clamps_to_zero_and_completes() {
    let mut s = PomodoroState::new(config(60, 30, 50, 4));
    s.start(0);
    s.tick(1_000_000);
    assert_eq!(s.remaining_seconds, 0);
    assert_eq!(s.state, TimerState::Idle);
    assert_eq!(s.take_finished_phase(), Some(Phase::Focus));
}

#[test]
fn phase_cycle_with_four_pomodoros() {
    // Phases visited in order F, SB, F, SB, F, SB, F, LB; the counter
    // resets to 0 exactly on entering the long break.
    let mut s = PomodoroState::new(config(2, 1, 3, 4));
    let mut now = 0i64;
    let mut visited = vec![s.phase];
    let mut counts = vec![s.completed_pomodoros];
    for _ in 0..8 {
        s.start(now);
        let d = s.phase_total_seconds;
        now += d;
        s.tick(now);
        visited.push(s.phase);
        counts.push(s.completed_pomodoros);
    }
    assert_eq!(
        visited,
        vec![
            Phase::Focus,
            Phase::ShortBreak,
            Phase::Focus,
            Phase::ShortBreak,
            Phase::Focus,
            Phase::ShortBreak,
            Phase::Focus,
            Phase::LongBreak,
            Phase::Focus,
        ]
    );
    assert_eq!(counts, vec![0, 1, 1, 2, 2, 3, 3, 0, 0]);
}

#[test]
fn restart_while_running_restarts_full_duration() {
    let mut s = PomodoroState::new(config(60, 30, 50, 4));
    s.start(0);
    s.tick(25);
    assert_eq!(s.remaining_seconds, 35);
    s.start(25);
    assert_eq!(s.remaining_seconds, 60);
    assert_eq!(s.state, TimerState::Running);
}

#[test]
fn stop_zeroes_countdown_but_keeps_phase_and_count() {
    let mut s = PomodoroState::new(config(10, 5, 7, 4));
    s.start(0);
    s.tick(10);
    assert_eq!(s.completed_pomodoros, 1);
    assert_eq!(s.phase, Phase::ShortBreak);
    s.start(20);
    s.stop();
    assert_eq!(s.state, TimerState::Idle);
    assert_eq!(s.remaining_seconds, 0);
    assert_eq!(s.phase_total_seconds, 0);
    assert_eq!(s.phase, Phase::ShortBreak);
    assert_eq!(s.completed_pomodoros, 1);
}

#[test]
fn reset_returns_to_focus_and_zero_count() {
    let mut s = PomodoroState::new(config(10, 5, 7, 4));
    s.start(0);
    s.tick(10);
    assert_eq!(s.completed_pomodoros, 1);
    s.reset_pomodoros_and_stop();
    assert_eq!(s.phase, Phase::Focus);
    assert_eq!(s.completed_pomodoros, 0);
    assert_eq!(s.state, TimerState::Idle);
    assert_eq!(s.remaining_seconds, 0);
}

#[test]
fn set_phase_stops_any_countdown() {
    let mut s = PomodoroState::new(config(60, 30, 50, 4));
    s.start(0);
    s.set_phase(Phase::LongBreak);
    assert_eq!(s.phase, Phase::LongBreak);
    assert_eq!(s.state, TimerState::Idle);
    assert_eq!(s.remaining_seconds, 0);
    s.start(100);
    assert_eq!(s.remaining_seconds, 50);
}

#[test]
fn progress_stays_within_bounds() {
    // Progress stays in [0, 1000], is 0 right after start; completion returns the
    // engine to idle, where progress reads 0 again.
    let mut s = PomodoroState::new(config(4, 2, 3, 4));
    assert_eq!(s.progress(), 0);
    s.start(0);
    assert_eq!(s.progress(), 0);
    s.tick(1);
    assert_eq!(s.progress(), 250);
    s.tick(3);
    assert_eq!(s.progress(), 750);
    let p = s.progress();
    assert!(p <= 1000);
    s.tick(4);
    assert_eq!(s.state, TimerState::Idle);
    assert_eq!(s.progress(), 0);
}
