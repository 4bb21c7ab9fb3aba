//! Laws of the timer engine, proved once and for all over the spec
//! transition functions that the executable operations implement exactly.

use vstd::prelude::*;

use crate::pomodoro::Phase;
use crate::pomodoro::PomodoroState;
use crate::pomodoro::TimerState;

verus! {

/// The state after feeding every timestamp of `ts` to `tick`, in order.
pub open spec fn state_after_ticks(s: PomodoroState, ts: Seq<i64>) -> PomodoroState
    decreases ts.len(),
{
    if ts.len() == 0 {
        s
    } else {
        state_after_ticks(s.tick_spec(ts[0]), ts.drop_first())
    }
}

/// One tick keeps the engine well formed, never increases the countdown and
/// never drives it negative.
pub proof fn lemma_tick_step_monotonic(s: PomodoroState, now: i64)
    requires
        s.wf(),
    ensures
        s.tick_spec(now).wf(),
        s.tick_spec(now).remaining_seconds <= s.remaining_seconds,
        0 <= s.tick_spec(now).remaining_seconds,
{
}

/// Ticking any number of times keeps the engine well formed.
pub proof fn lemma_ticks_wf(s: PomodoroState, ts: Seq<i64>)
    requires
        s.wf(),
    ensures
        state_after_ticks(s, ts).wf(),
    decreases ts.len(),
{
    if ts.len() != 0 {
        lemma_tick_step_monotonic(s, ts[0]);
        lemma_ticks_wf(s.tick_spec(ts[0]), ts.drop_first());
    }
}

/// Feeding one more timestamp is one more tick at the end.
pub proof fn lemma_ticks_snoc(s: PomodoroState, ts: Seq<i64>, t: i64)
    ensures
        state_after_ticks(s, ts.push(t)) == state_after_ticks(s, ts).tick_spec(t),
    decreases ts.len(),
{
    reveal_with_fuel(state_after_ticks, 3);
    if ts.len() == 0 {
        assert(ts.push(t)[0] == t);
        assert(ts.push(t).drop_first() =~= Seq::<i64>::empty());
    } else {
        assert(ts.push(t)[0] == ts[0]);
        assert(ts.push(t).drop_first() =~= ts.drop_first().push(t));
        lemma_ticks_snoc(s.tick_spec(ts[0]), ts.drop_first(), t);
    }
}

/// Countdown monotonicity: however `tick` is fed — any timestamps, in any
/// state — the countdown after each tick is no larger than before it, and
/// never negative.
pub proof fn lemma_countdown_monotonic(s: PomodoroState, ts: Seq<i64>, i: int)
    requires
        s.wf(),
        0 <= i < ts.len(),
    ensures
        state_after_ticks(s, ts.take(i + 1)).remaining_seconds <= state_after_ticks(
            s,
            ts.take(i),
        ).remaining_seconds,
        0 <= state_after_ticks(s, ts.take(i + 1)).remaining_seconds,
{
    let before = state_after_ticks(s, ts.take(i));
    assert(ts.take(i + 1) =~= ts.take(i).push(ts[i]));
    lemma_ticks_snoc(s, ts.take(i), ts[i]);
    lemma_ticks_wf(s, ts.take(i));
    lemma_tick_step_monotonic(before, ts[i]);
}

/// Pause/resume freezes time: start a focus phase of duration `D`, tick `d1`
/// seconds into it, pause, tick once more at an arbitrary timestamp while
/// paused, resume at `t1`, and tick `d2` seconds after the resume — the
/// countdown then reads exactly `D - d1 - d2`. Time passed while paused is
/// never counted.
pub proof fn lemma_pause_resume_freezes_countdown(
    s: PomodoroState,
    t0: i64,
    d1: i64,
    probe: i64,
    t1: i64,
    d2: i64,
)
    requires
        s.wf(),
        s.phase == Phase::Focus,
        0 < d1,
        0 < d2,
        d1 + d2 <= s.config.focus_seconds,
        t0 + d1 <= i64::MAX,
        t1 + d2 <= i64::MAX,
    ensures
        ({
            let running = s.start_spec(t0);
            let ticked = running.tick_spec((t0 + d1) as i64);
            let paused = ticked.toggle_pause_spec(probe);
            let idled = paused.tick_spec(probe);
            let resumed = idled.toggle_pause_spec(t1);
            let end = resumed.tick_spec((t1 + d2) as i64);
            end.remaining_seconds == s.config.focus_seconds - d1 - d2
        }),
{
}

/// At-most-once completion delivery: when a tick completes the running
/// phase, the mailbox stages exactly that phase; draining it once yields the
/// phase and empties the slot, so draining again yields nothing. A completed
/// focus phase likewise stages its configured duration exactly once.
pub proof fn lemma_completion_delivered_once(s: PomodoroState, now: i64)
    requires
        s.wf(),
        s.state == TimerState::Running,
        s.tick_spec(now).state == TimerState::Idle,
    ensures
        ({
            let done = s.tick_spec(now);
            let first = done.take_finished_phase_spec();
            let second = first.1.take_finished_phase_spec();
            first.0 == Some(s.phase) && second.0 is None
        }),
        s.phase == Phase::Focus ==> ({
            let done = s.tick_spec(now);
            let first = done.take_last_completed_focus_duration_spec();
            let second = first.1.take_last_completed_focus_duration_spec();
            first.0 == Some(s.phase_total_seconds) && second.0 is None
        }),
{
}

/// One full phase: start the current phase at `t` and tick exactly its
/// configured duration later, completing it.
pub open spec fn run_phase_spec(s: PomodoroState, t: i64) -> PomodoroState {
    s.start_spec(t).tick_spec((t + s.config.spec_duration_for(s.phase)) as i64)
}

/// Phase cycle: with `pomodoros_before_long == 4`, starting from focus with a
/// zero counter, running each phase to completion visits Focus, ShortBreak,
/// Focus, ShortBreak, Focus, ShortBreak, Focus, LongBreak, the counter
/// stepping 1, 2, 3 and resetting to 0 exactly when the long break is
/// entered.
pub proof fn lemma_phase_cycle(
    s: PomodoroState,
    t1: i64,
    t2: i64,
    t3: i64,
    t4: i64,
    t5: i64,
    t6: i64,
    t7: i64,
    t8: i64,
)
    requires
        s.wf(),
        s.config.pomodoros_before_long == 4,
        s.phase == Phase::Focus,
        s.completed_pomodoros == 0,
        t1 + s.config.focus_seconds <= i64::MAX,
        t2 + s.config.short_break_seconds <= i64::MAX,
        t3 + s.config.focus_seconds <= i64::MAX,
        t4 + s.config.short_break_seconds <= i64::MAX,
        t5 + s.config.focus_seconds <= i64::MAX,
        t6 + s.config.short_break_seconds <= i64::MAX,
        t7 + s.config.focus_seconds <= i64::MAX,
        t8 + s.config.long_break_seconds <= i64::MAX,
    ensures
        ({
            let s1 = run_phase_spec(s, t1);
            let s2 = run_phase_spec(s1, t2);
            let s3 = run_phase_spec(s2, t3);
            let s4 = run_phase_spec(s3, t4);
            let s5 = run_phase_spec(s4, t5);
            let s6 = run_phase_spec(s5, t6);
            let s7 = run_phase_spec(s6, t7);
            let s8 = run_phase_spec(s7, t8);
            &&& s1.phase == Phase::ShortBreak && s1.completed_pomodoros == 1
            &&& s2.phase == Phase::Focus && s2.completed_pomodoros == 1
            &&& s3.phase == Phase::ShortBreak && s3.completed_pomodoros == 2
            &&& s4.phase == Phase::Focus && s4.completed_pomodoros == 2
            &&& s5.phase == Phase::ShortBreak && s5.completed_pomodoros == 3
            &&& s6.phase == Phase::Focus && s6.completed_pomodoros == 3
            &&& s7.phase == Phase::LongBreak && s7.completed_pomodoros == 0
            &&& s8.phase == Phase::Focus && s8.completed_pomodoros == 0
        }),
{
}

/// Progress bounds: the thousandths progress always lies in `[0, 1000]`, is
/// `0` immediately after `start`, is `1000` exactly when a countdown at zero
/// still has its phase total set, and reads `0` once the engine is idle.
pub proof fn lemma_progress_bounds(s: PomodoroState, now: i64)
    requires
        s.wf(),
    ensures
        0 <= s.progress_spec() <= 1000,
        s.start_spec(now).progress_spec() == 0,
        s.remaining_seconds == 0 && s.phase_total_seconds > 0 ==> s.progress_spec() == 1000,
        s.state == TimerState::Idle ==> s.progress_spec() == 0,
{
    if s.phase_total_seconds > 0 {
        let t = s.phase_total_seconds as int;
        let e = t - s.remaining_seconds;
        assert(0 <= e * 1000 <= t * 1000) by (nonlinear_arith)
            requires
                0 <= e <= t,
        ;
        assert(t * 1000 / t == 1000) by (nonlinear_arith)
            requires
                t > 0,
        ;
        assert(0int / t == 0) by (nonlinear_arith)
            requires
                t > 0,
        ;
        vstd::arithmetic::div_mod::lemma_div_is_ordered(0, e * 1000, t);
        vstd::arithmetic::div_mod::lemma_div_is_ordered(e * 1000, t * 1000, t);
    }
    let d = s.config.spec_duration_for(s.phase) as int;
    assert(0int * 1000 == 0) by (nonlinear_arith);
    assert(0int / d == 0) by (nonlinear_arith)
        requires
            d > 0,
    ;
}

} // verus!
