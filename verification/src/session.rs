//! The persisted session snapshot: a flat, text-keyed image of the engine
//! state that the host saves on exit and restores on start. A snapshot never
//! restores to `Running` — a countdown does not resume across a restart
//! without an explicit user action — and restoring re-establishes the
//! engine's invariant whatever the stored numbers say.

use vstd::prelude::*;
use vstd::string::StringExecFns;

use crate::pomodoro::Phase;
use crate::pomodoro::PomodoroConfig;
use crate::pomodoro::PomodoroState;
use crate::pomodoro::TimerState;
use crate::text::str_eq;

verus! {

/// The stored name of a phase.
pub open spec fn phase_str_spec(p: Phase) -> Seq<char> {
    match p {
        Phase::Focus => "Focus"@,
        Phase::ShortBreak => "ShortBreak"@,
        Phase::LongBreak => "LongBreak"@,
    }
}

/// The phase a stored name denotes; unknown names fall back to focus.
pub open spec fn phase_from_str_spec(s: Seq<char>) -> Phase {
    if s == "ShortBreak"@ {
        Phase::ShortBreak
    } else if s == "LongBreak"@ {
        Phase::LongBreak
    } else {
        Phase::Focus
    }
}

/// The stored name of a timer state.
pub open spec fn state_str_spec(s: TimerState) -> Seq<char> {
    match s {
        TimerState::Idle => "Idle"@,
        TimerState::Running => "Running"@,
        TimerState::Paused => "Paused"@,
    }
}

/// The timer state a stored name denotes; unknown names fall back to idle.
pub open spec fn state_from_str_spec(s: Seq<char>) -> TimerState {
    if s == "Running"@ {
        TimerState::Running
    } else if s == "Paused"@ {
        TimerState::Paused
    } else {
        TimerState::Idle
    }
}

pub fn phase_to_str(p: Phase) -> (r: &'static str)
    ensures
        r@ == phase_str_spec(p),
{
    match p {
        Phase::Focus => "Focus",
        Phase::ShortBreak => "ShortBreak",
        Phase::LongBreak => "LongBreak",
    }
}

pub fn phase_from_str(s: &str) -> (p: Phase)
    ensures
        p == phase_from_str_spec(s@),
{
    if str_eq(s, "ShortBreak") {
        Phase::ShortBreak
    } else if str_eq(s, "LongBreak") {
        Phase::LongBreak
    } else {
        Phase::Focus
    }
}

pub fn state_to_str(s: TimerState) -> (r: &'static str)
    ensures
        r@ == state_str_spec(s),
{
    match s {
        TimerState::Idle => "Idle",
        TimerState::Running => "Running",
        TimerState::Paused => "Paused",
    }
}

pub fn state_from_str(s: &str) -> (t: TimerState)
    ensures
        t == state_from_str_spec(s@),
{
    if str_eq(s, "Running") {
        TimerState::Running
    } else if str_eq(s, "Paused") {
        TimerState::Paused
    } else {
        TimerState::Idle
    }
}

/// The flat session image stored under a single settings slot: the current
/// task label, the phase and state by name, and the countdown numbers.
#[derive(Debug)]
pub struct PersistedSession {
    pub current_task: String,
    pub phase: String,
    pub state: String,
    pub remaining_seconds: i64,
    pub phase_total_seconds: i64,
    pub completed_pomodoros: u32,
}

/// Build the snapshot of a session: the task label and the engine's phase,
/// state, countdown and counter, with phase and state stored by name.
pub fn snapshot_session(task: &str, s: &PomodoroState) -> (p: PersistedSession)
    ensures
        p.current_task@ == task@,
        p.phase@ == phase_str_spec(s.phase),
        p.state@ == state_str_spec(s.state),
        p.remaining_seconds == s.remaining_seconds,
        p.phase_total_seconds == s.phase_total_seconds,
        p.completed_pomodoros == s.completed_pomodoros,
{
    PersistedSession {
        current_task: String::from_str(task),
        phase: String::from_str(phase_to_str(s.phase)),
        state: String::from_str(state_to_str(s.state)),
        remaining_seconds: s.remaining_seconds,
        phase_total_seconds: s.phase_total_seconds,
        completed_pomodoros: s.completed_pomodoros,
    }
}

/// The engine state a loaded snapshot restores to: the named phase; the
/// named state with `Running` downgraded to `Paused`; the stored countdown
/// clamped into the engine's invariant (non-negative, at most the phase
/// total, both zero when idle); empty mailboxes.
pub open spec fn restore_state_spec(
    config: PomodoroConfig,
    phase: Seq<char>,
    state: Seq<char>,
    remaining: i64,
    total: i64,
    completed: u32,
) -> PomodoroState {
    let named = state_from_str_spec(state);
    let st = if named == TimerState::Running {
        TimerState::Paused
    } else {
        named
    };
    let t = if total >= 0 {
        total
    } else {
        0i64
    };
    let r0 = if remaining >= 0 {
        remaining
    } else {
        0i64
    };
    let r = if r0 <= t {
        r0
    } else {
        t
    };
    PomodoroState {
        config,
        phase: phase_from_str_spec(phase),
        state: st,
        remaining_seconds: if st == TimerState::Idle {
            0i64
        } else {
            r
        },
        phase_total_seconds: if st == TimerState::Idle {
            0i64
        } else {
            t
        },
        completed_pomodoros: completed,
        last_tick_at: None,
        finished_phase: None,
        last_completed_focus_duration_seconds: None,
    }
}

/// Rebuild a session from a loaded snapshot: the task label and a well
/// formed engine state per [`restore_state_spec`].
pub fn restore_session(config: PomodoroConfig, p: &PersistedSession) -> (r: (String, PomodoroState))
    requires
        config.wf(),
    ensures
        r.0@ == p.current_task@,
        r.1 == restore_state_spec(
            config,
            p.phase@,
            p.state@,
            p.remaining_seconds,
            p.phase_total_seconds,
            p.completed_pomodoros,
        ),
        r.1.wf(),
{
    let named = state_from_str(p.state.as_str());
    let st = match named {
        TimerState::Running => TimerState::Paused,
        other => other,
    };
    let idle = match st {
        TimerState::Idle => true,
        _ => false,
    };
    let t = if p.phase_total_seconds >= 0 && !idle {
        p.phase_total_seconds
    } else {
        0
    };
    let r0 = if p.remaining_seconds >= 0 && !idle {
        p.remaining_seconds
    } else {
        0
    };
    let rem = if r0 <= t {
        r0
    } else {
        t
    };
    let state = PomodoroState {
        config,
        phase: phase_from_str(p.phase.as_str()),
        state: st,
        remaining_seconds: rem,
        phase_total_seconds: t,
        completed_pomodoros: p.completed_pomodoros,
        last_tick_at: None,
        finished_phase: None,
        last_completed_focus_duration_seconds: None,
    };
    (p.current_task.clone(), state)
}

/// Round trip: restoring the snapshot of a well formed session recovers the
/// task label, phase, countdown and pomodoro counter exactly, with `Running`
/// downgraded to `Paused` and everything else unchanged.
pub proof fn lemma_restore_recovers_snapshot(s: PomodoroState, config: PomodoroConfig)
    requires
        s.wf(),
        config.wf(),
    ensures
        ({
            let r = restore_state_spec(
                config,
                phase_str_spec(s.phase),
                state_str_spec(s.state),
                s.remaining_seconds,
                s.phase_total_seconds,
                s.completed_pomodoros,
            );
            &&& r.phase == s.phase
            &&& r.state == (if s.state == TimerState::Running {
                TimerState::Paused
            } else {
                s.state
            })
            &&& r.remaining_seconds == s.remaining_seconds
            &&& r.phase_total_seconds == s.phase_total_seconds
            &&& r.completed_pomodoros == s.completed_pomodoros
            &&& r.wf()
        }),
{
    reveal_strlit("Focus");
    reveal_strlit("ShortBreak");
    reveal_strlit("LongBreak");
    reveal_strlit("Idle");
    reveal_strlit("Running");
    reveal_strlit("Paused");
    assert("Focus"@.len() == 5);
    assert("ShortBreak"@.len() == 10);
    assert("LongBreak"@.len() == 9);
    assert("Idle"@.len() == 4);
    assert("Running"@.len() == 7);
    assert("Paused"@.len() == 6);
    assert(phase_from_str_spec(phase_str_spec(s.phase)) == s.phase);
    assert(state_from_str_spec(state_str_spec(s.state)) == s.state);
}

} // verus!
