//! The timer engine: a pomodoro countdown driven purely by caller-supplied
//! timestamps (unix seconds). The engine never reads a clock itself, so every
//! transition is a deterministic function of the previous state and the
//! timestamp handed in, stated below as `spec` transition functions that the
//! executable operations are proved to implement exactly.

use vstd::prelude::*;

verus! {

/// A pomodoro phase: what the active countdown stands for and which phase
/// follows on completion.
#[derive(Clone, Copy, Debug, PartialEq, Eq, Structural)]
pub enum Phase {
    Focus,
    ShortBreak,
    LongBreak,
}

/// Whether elapsed time currently accrues.
#[derive(Clone, Copy, Debug, PartialEq, Eq, Structural)]
pub enum TimerState {
    Running,
    Paused,
    Idle,
}

/// Per-session configuration. All durations are in seconds and positive;
/// `pomodoros_before_long` is the number of focus phases completed before a
/// long break is inserted instead of a short one.
#[derive(Clone, Copy, Debug)]
pub struct PomodoroConfig {
    pub focus_seconds: i64,
    pub short_break_seconds: i64,
    pub long_break_seconds: i64,
    pub pomodoros_before_long: u32,
}

impl PomodoroConfig {
    /// Validity: every configured duration and the long-break threshold are
    /// positive.
    pub open spec fn wf(self) -> bool {
        &&& 0 < self.focus_seconds
        &&& 0 < self.short_break_seconds
        &&& 0 < self.long_break_seconds
        &&& 0 < self.pomodoros_before_long
    }

    /// The configured duration of a phase.
    pub open spec fn spec_duration_for(self, p: Phase) -> i64 {
        match p {
            Phase::Focus => self.focus_seconds,
            Phase::ShortBreak => self.short_break_seconds,
            Phase::LongBreak => self.long_break_seconds,
        }
    }

    pub fn duration_for(&self, p: Phase) -> (d: i64)
        ensures
            d == self.spec_duration_for(p),
    {
        match p {
            Phase::Focus => self.focus_seconds,
            Phase::ShortBreak => self.short_break_seconds,
            Phase::LongBreak => self.long_break_seconds,
        }
    }
}

impl Default for PomodoroConfig {
    /// 25 minutes of focus, 5 of short break, 15 of long break, a long break
    /// after every fourth pomodoro.
    fn default() -> (c: PomodoroConfig)
        ensures
            c.focus_seconds == 25 * 60,
            c.short_break_seconds == 5 * 60,
            c.long_break_seconds == 15 * 60,
            c.pomodoros_before_long == 4,
            c.wf(),
    {
        PomodoroConfig {
            focus_seconds: 25 * 60,
            short_break_seconds: 5 * 60,
            long_break_seconds: 15 * 60,
            pomodoros_before_long: 4,
        }
    }
}

/// The engine's mutable core.
///
/// `finished_phase` and `last_completed_focus_duration_seconds` are one-shot
/// mailbox slots: completion stages a value, the host drains it exactly once.
pub struct PomodoroState {
    pub config: PomodoroConfig,
    pub phase: Phase,
    pub state: TimerState,
    /// Countdown for the active phase, in `[0, phase_total_seconds]`.
    pub remaining_seconds: i64,
    /// Duration the current phase was started with; `0` when no phase has
    /// been started since the last stop.
    pub phase_total_seconds: i64,
    /// Focus phases completed since the last long break (or reset).
    pub completed_pomodoros: u32,
    /// Timestamp of the last tick, present exactly while `Running`.
    pub last_tick_at: Option<i64>,
    /// Mailbox: the phase whose countdown just reached zero.
    pub finished_phase: Option<Phase>,
    /// Mailbox: the configured duration of the focus phase that just
    /// completed, for history-record construction.
    pub last_completed_focus_duration_seconds: Option<i64>,
}

impl PomodoroState {
    /// The engine's invariant: the countdown stays within the phase total,
    /// both are zero when idle, and a tick timestamp is held exactly while
    /// running.
    pub open spec fn wf(self) -> bool {
        &&& self.config.wf()
        &&& 0 <= self.remaining_seconds <= self.phase_total_seconds
        &&& self.state == TimerState::Idle ==> self.remaining_seconds == 0
            && self.phase_total_seconds == 0
        &&& self.last_tick_at is Some <==> self.state == TimerState::Running
    }

    /// What `start` does: begin the current phase at its full configured
    /// duration, running, stamped with the caller's clock.
    pub open spec fn start_spec(self, now: i64) -> PomodoroState {
        PomodoroState {
            phase_total_seconds: self.config.spec_duration_for(self.phase),
            remaining_seconds: self.config.spec_duration_for(self.phase),
            state: TimerState::Running,
            last_tick_at: Some(now),
            ..self
        }
    }

    /// What `stop` does: back to idle with the countdown fields zeroed;
    /// phase and pomodoro count are untouched.
    pub open spec fn stop_spec(self) -> PomodoroState {
        PomodoroState {
            state: TimerState::Idle,
            remaining_seconds: 0,
            phase_total_seconds: 0,
            last_tick_at: None,
            ..self
        }
    }

    /// What `toggle_pause` does: running freezes to paused (dropping the tick
    /// stamp, so no time accrues), paused resumes running from the frozen
    /// countdown with a fresh stamp, idle is untouched.
    pub open spec fn toggle_pause_spec(self, now: i64) -> PomodoroState {
        match self.state {
            TimerState::Running => PomodoroState {
                state: TimerState::Paused,
                last_tick_at: None,
                ..self
            },
            TimerState::Paused => PomodoroState {
                state: TimerState::Running,
                last_tick_at: Some(now),
                ..self
            },
            TimerState::Idle => self,
        }
    }

    /// A fresh, idle engine for a given configuration.
    pub open spec fn initial_spec(config: PomodoroConfig) -> PomodoroState {
        PomodoroState {
            config,
            phase: Phase::Focus,
            state: TimerState::Idle,
            remaining_seconds: 0,
            phase_total_seconds: 0,
            completed_pomodoros: 0,
            last_tick_at: None,
            finished_phase: None,
            last_completed_focus_duration_seconds: None,
        }
    }

    /// What `take_finished_phase` does: the drained value and the state left
    /// behind, whose mailbox is empty.
    pub open spec fn take_finished_phase_spec(self) -> (Option<Phase>, PomodoroState) {
        (self.finished_phase, PomodoroState { finished_phase: None, ..self })
    }

    /// What `take_last_completed_focus_duration` does.
    pub open spec fn take_last_completed_focus_duration_spec(self) -> (Option<i64>, PomodoroState) {
        (
            self.last_completed_focus_duration_seconds,
            PomodoroState { last_completed_focus_duration_seconds: None, ..self },
        )
    }

    /// What `reset_pomodoros_and_stop` does.
    pub open spec fn reset_spec(self) -> PomodoroState {
        PomodoroState { completed_pomodoros: 0, phase: Phase::Focus, ..self }.stop_spec()
    }

    /// What `set_phase` does.
    pub open spec fn set_phase_spec(self, phase: Phase) -> PomodoroState {
        PomodoroState { phase: phase, ..self }.stop_spec()
    }

    /// What completion does when the countdown reaches zero while running:
    /// stage the mailboxes, fall back to idle, and advance the phase — a
    /// focus phase steps the pomodoro counter and chooses the break kind, a
    /// break returns to focus.
    pub open spec fn finish_spec(self) -> PomodoroState {
        let just = self.phase;
        let base = PomodoroState {
            state: TimerState::Idle,
            remaining_seconds: 0,
            phase_total_seconds: 0,
            last_tick_at: None,
            finished_phase: Some(just),
            last_completed_focus_duration_seconds: if just == Phase::Focus {
                Some(self.phase_total_seconds)
            } else {
                self.last_completed_focus_duration_seconds
            },
            ..self
        };
        match just {
            Phase::Focus => {
                if self.completed_pomodoros + 1 >= self.config.pomodoros_before_long {
                    PomodoroState { phase: Phase::LongBreak, completed_pomodoros: 0, ..base }
                } else {
                    PomodoroState {
                        phase: Phase::ShortBreak,
                        completed_pomodoros: (self.completed_pomodoros + 1) as u32,
                        ..base
                    }
                }
            }
            _ => PomodoroState { phase: Phase::Focus, ..base },
        }
    }

    /// What `tick` does: a no-op unless running and the caller's clock moved
    /// forward; otherwise the countdown loses the elapsed whole seconds
    /// (never below zero) and completion fires when it reaches zero.
    pub open spec fn tick_spec(self, now: i64) -> PomodoroState {
        if self.state != TimerState::Running {
            self
        } else {
            match self.last_tick_at {
                None => self,
                Some(last) => {
                    if now <= last {
                        self
                    } else {
                        let rem = if self.remaining_seconds - (now - last) >= 0 {
                            (self.remaining_seconds - (now - last)) as i64
                        } else {
                            0i64
                        };
                        let stepped = PomodoroState {
                            last_tick_at: Some(now),
                            remaining_seconds: rem,
                            ..self
                        };
                        if rem == 0 {
                            stepped.finish_spec()
                        } else {
                            stepped
                        }
                    }
                },
            }
        }
    }

    pub fn new(config: PomodoroConfig) -> (s: PomodoroState)
        requires
            config.wf(),
        ensures
            s == PomodoroState::initial_spec(config),
            s.wf(),
    {
        PomodoroState {
            config,
            phase: Phase::Focus,
            state: TimerState::Idle,
            remaining_seconds: 0,
            phase_total_seconds: 0,
            completed_pomodoros: 0,
            last_tick_at: None,
            finished_phase: None,
            last_completed_focus_duration_seconds: None,
        }
    }

    /// Start (or restart) the current phase from its full configured
    /// duration. Valid in any state; `now` is the caller's clock reading.
    pub fn start(&mut self, now: i64)
        requires
            old(self).wf(),
        ensures
            *final(self) == old(self).start_spec(now),
            final(self).wf(),
    {
        let total = self.config.duration_for(self.phase);
        self.phase_total_seconds = total;
        self.remaining_seconds = total;
        self.state = TimerState::Running;
        self.last_tick_at = Some(now);
    }

    /// Pause a running countdown or resume a paused one; no-op when idle.
    pub fn toggle_pause(&mut self, now: i64)
        requires
            old(self).wf(),
        ensures
            *final(self) == old(self).toggle_pause_spec(now),
            final(self).wf(),
    {
        match self.state {
            TimerState::Running => {
                self.state = TimerState::Paused;
                self.last_tick_at = None;
            }
            TimerState::Paused => {
                self.state = TimerState::Running;
                self.last_tick_at = Some(now);
            }
            TimerState::Idle => {}
        }
    }

    /// Unconditionally return to idle, zeroing the countdown fields.
    pub fn stop(&mut self)
        requires
            old(self).wf(),
        ensures
            *final(self) == old(self).stop_spec(),
            final(self).wf(),
    {
        self.state = TimerState::Idle;
        self.remaining_seconds = 0;
        self.phase_total_seconds = 0;
        self.last_tick_at = None;
    }

    /// Zero the pomodoro counter, force the phase back to focus, and stop.
    pub fn reset_pomodoros_and_stop(&mut self)
        requires
            old(self).wf(),
        ensures
            *final(self) == old(self).reset_spec(),
            final(self).wf(),
    {
        self.completed_pomodoros = 0;
        self.phase = Phase::Focus;
        self.stop();
    }

    /// Select a phase and return to idle; the caller may start it afterwards.
    pub fn set_phase(&mut self, phase: Phase)
        requires
            old(self).wf(),
        ensures
            *final(self) == old(self).set_phase_spec(phase),
            final(self).wf(),
    {
        self.phase = phase;
        self.stop();
    }

    /// Advance the countdown to the caller's clock reading `now` (unix
    /// seconds). No-op unless running; a clock that did not move forward by a
    /// whole second is absorbed silently. Reaching zero fires completion.
    pub fn tick(&mut self, now: i64)
        requires
            old(self).wf(),
        ensures
            *final(self) == old(self).tick_spec(now),
            final(self).wf(),
    {
        if self.state != TimerState::Running {
            return ;
        }
        let last = match self.last_tick_at {
            Some(l) => l,
            None => {
                return ;
            },
        };
        if now <= last {
            return ;
        }
        self.last_tick_at = Some(now);
        let rem = match now.checked_sub(last) {
            Some(elapsed) => {
                if elapsed >= self.remaining_seconds {
                    0
                } else {
                    self.remaining_seconds - elapsed
                }
            },
            // The mathematical difference exceeds `i64`, so it certainly
            // exceeds the countdown: the phase is over.
            None => 0,
        };
        self.remaining_seconds = rem;
        if rem == 0 {
            self.on_phase_finished();
        }
    }

    fn on_phase_finished(&mut self)
        requires
            old(self).wf(),
            old(self).state == TimerState::Running,
            old(self).remaining_seconds == 0,
        ensures
            *final(self) == old(self).finish_spec(),
            final(self).wf(),
    {
        let just_finished = self.phase;
        let total_seconds = self.phase_total_seconds;
        self.finished_phase = Some(just_finished);
        self.state = TimerState::Idle;
        self.remaining_seconds = 0;
        self.phase_total_seconds = 0;
        self.last_tick_at = None;
        match just_finished {
            Phase::Focus => {
                self.last_completed_focus_duration_seconds = Some(total_seconds);
                if self.completed_pomodoros >= self.config.pomodoros_before_long - 1 {
                    self.phase = Phase::LongBreak;
                    self.completed_pomodoros = 0;
                } else {
                    self.completed_pomodoros = self.completed_pomodoros + 1;
                    self.phase = Phase::ShortBreak;
                }
            }
            _ => {
                self.phase = Phase::Focus;
            }
        }
    }

    /// Progress through the current phase in thousandths: `0` when no phase
    /// total is set, else `(total - remaining) * 1000 / total`.
    pub open spec fn progress_spec(self) -> int {
        if self.phase_total_seconds <= 0 {
            0
        } else {
            (self.phase_total_seconds - self.remaining_seconds) * 1000 / (
            self.phase_total_seconds as int)
        }
    }

    /// Progress through the current phase as a fraction in thousandths,
    /// always in `[0, 1000]`: `0` right after `start`, `1000` when the
    /// countdown has reached zero with a phase total still set.
    pub fn progress(&self) -> (r: u32)
        requires
            self.wf(),
        ensures
            r == self.progress_spec(),
            r <= 1000,
            self.remaining_seconds == self.phase_total_seconds ==> r == 0,
            self.remaining_seconds == 0 && self.phase_total_seconds > 0 ==> r == 1000,
    {
        if self.phase_total_seconds <= 0 {
            return 0;
        }
        let total = self.phase_total_seconds as u128;
        let elapsed = (self.phase_total_seconds - self.remaining_seconds) as u128;
        proof {
            let e = elapsed as int;
            let t = total as int;
            assert(e * 1000 <= t * 1000) by (nonlinear_arith)
                requires
                    e <= t,
            ;
            assert(t * 1000 / t == 1000) by (nonlinear_arith)
                requires
                    t > 0,
            ;
            vstd::arithmetic::div_mod::lemma_div_is_ordered(e * 1000, t * 1000, t);
        }
        let p = (elapsed * 1000) / total;
        p as u32
    }

    /// The countdown formatted as `MM:SS` (more than two minute digits when
    /// the phase is longer than an hour), clamped at zero.
    pub open spec fn remaining_display_spec(self) -> Seq<char> {
        let s = if self.remaining_seconds >= 0 {
            self.remaining_seconds as int
        } else {
            0
        };
        crate::timefmt::pad2((s / 60) as nat) + seq![':'] + crate::timefmt::pad2((s % 60) as nat)
    }

    pub fn remaining_display(&self) -> (r: String)
        ensures
            r@ == self.remaining_display_spec(),
    {
        let s: u64 = if self.remaining_seconds > 0 {
            self.remaining_seconds as u64
        } else {
            0
        };
        let mut out = crate::timefmt::two_digits(s / 60);
        out.append(":");
        let secs = crate::timefmt::two_digits(s % 60);
        out.append(secs.as_str());
        proof {
            reveal_strlit(":");
            assert(out@ =~= self.remaining_display_spec());
        }
        out
    }

    /// Drain the "a phase just ended" mailbox: returns the staged phase and
    /// clears the slot, so a second call before another completion is `None`.
    pub fn take_finished_phase(&mut self) -> (r: Option<Phase>)
        ensures
            r == old(self).take_finished_phase_spec().0,
            *final(self) == old(self).take_finished_phase_spec().1,
    {
        let r = self.finished_phase;
        self.finished_phase = None;
        r
    }

    /// Drain the "a focus phase just completed" mailbox: returns the staged
    /// duration and clears the slot.
    pub fn take_last_completed_focus_duration(&mut self) -> (r: Option<i64>)
        ensures
            r == old(self).take_last_completed_focus_duration_spec().0,
            *final(self) == old(self).take_last_completed_focus_duration_spec().1,
    {
        let r = self.last_completed_focus_duration_seconds;
        self.last_completed_focus_duration_seconds = None;
        r
    }
}

impl Default for PomodoroState {
    /// An idle engine with the default configuration.
    fn default() -> (s: PomodoroState)
        ensures
            s == PomodoroState::initial_spec(s.config),
            s.config.wf(),
            s.config.focus_seconds == 25 * 60,
            s.config.short_break_seconds == 5 * 60,
            s.config.long_break_seconds == 15 * 60,
            s.config.pomodoros_before_long == 4,
            s.wf(),
    {
        PomodoroState::new(PomodoroConfig::default())
    }
}

} // verus!
