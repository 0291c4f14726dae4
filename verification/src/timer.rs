//! The pomodoro timer: focus sessions and breaks, counted down, advanced one
//! phase at a time, and carried across a restart in a snapshot.

use vstd::prelude::*;
use std::time::Duration;
use crate::clock::{
    duration_as_nanos, duration_nanos, duration_new, duration_since, num_seconds, spec_duration_since,
    spec_num_seconds, utc_now, UtcTime,
};
use crate::config::TimerConfig;
use crate::text::push_pad2;
use vstd::string::*;

verus! {

/// Nanoseconds in a second.
pub const NANOS_PER_SEC: u128 = 1_000_000_000;

/// The longest time a timer can hold, in nanoseconds: what a `Duration`
/// holds at most.
pub const MAX_REMAINING_NANOS: u128 = 18_446_744_073_709_551_615_999_999_999;

/// How many phases a restored snapshot is fast-forwarded through at most.
pub const RESTORE_ROUNDS: u32 = 32;

/// The part of a pomodoro cycle the timer is in.
#[derive(Debug, Clone, Copy, PartialEq, Eq, Structural)]
pub enum Phase {
    Focus,
    ShortBreak,
    LongBreak,
}

/// Whether the countdown runs.
#[derive(Debug, Clone, Copy, PartialEq, Eq, Structural)]
pub enum Status {
    Idle,
    Running,
    Paused,
}

/// The timer as the contracts see it; `remaining` is in nanoseconds.
pub struct TimerState {
    pub phase: Phase,
    pub status: Status,
    pub remaining: nat,
    pub completed: nat,
}

/// Minutes that `phase` lasts under `cfg`.
pub open spec fn phase_minutes(cfg: TimerConfig, phase: Phase) -> nat {
    match phase {
        Phase::Focus => cfg.focus_minutes as nat,
        Phase::ShortBreak => cfg.short_break_minutes as nat,
        Phase::LongBreak => cfg.long_break_minutes as nat,
    }
}

/// Nanoseconds that `phase` lasts under `cfg`.
pub open spec fn phase_nanos(cfg: TimerConfig, phase: Phase) -> nat {
    phase_minutes(cfg, phase) * 60 * 1_000_000_000
}

/// Focus sessions per cycle; a setting of zero counts as one.
pub open spec fn cycle_len(cfg: TimerConfig) -> nat {
    if cfg.cycles_before_long_break == 0 {
        1
    } else {
        cfg.cycles_before_long_break as nat
    }
}

/// How a phase starts: running where `cfg` starts it by itself, idle
/// otherwise.
pub open spec fn entry_status(cfg: TimerConfig, phase: Phase) -> Status {
    match phase {
        Phase::Focus => if cfg.auto_start_focus { Status::Running } else { Status::Idle },
        _ => if cfg.auto_start_breaks { Status::Running } else { Status::Idle },
    }
}

/// The phase after `phase`, once `completed` focus sessions are done: a
/// focus session that closes a cycle leads to a long break, any other to a
/// short one, and every break leads back to focus.
pub open spec fn next_phase(cfg: TimerConfig, phase: Phase, completed: nat) -> Phase {
    match phase {
        Phase::Focus => if completed % cycle_len(cfg) == 0 { Phase::LongBreak } else { Phase::ShortBreak },
        _ => Phase::Focus,
    }
}

/// The timer moved on to its next phase: a finished focus session is
/// counted, the next phase is full, and it runs if `cfg` starts it by itself.
pub open spec fn advanced(s: TimerState, cfg: TimerConfig) -> TimerState {
    let completed = if s.phase == Phase::Focus { s.completed + 1 } else { s.completed };
    let next = next_phase(cfg, s.phase, completed);
    TimerState {
        phase: next,
        status: entry_status(cfg, next),
        remaining: phase_nanos(cfg, next),
        completed: completed,
    }
}

/// Whether moving on from `s` keeps the count of focus sessions in a `u32`.
pub open spec fn can_advance(s: TimerState) -> bool {
    s.phase == Phase::Focus ==> s.completed < u32::MAX
}

/// The timer after `dt` nanoseconds have passed, and the phase it moved into
/// if the current one ran out. Only a running timer counts down.
pub open spec fn ticked(s: TimerState, dt: nat, cfg: TimerConfig) -> (TimerState, Option<Phase>) {
    if s.status != Status::Running {
        (s, None)
    } else if dt >= s.remaining {
        (advanced(s, cfg), Some(advanced(s, cfg).phase))
    } else {
        (TimerState { remaining: (s.remaining - dt) as nat, ..s }, None)
    }
}

/// Whether `ticked(s, dt, cfg)` keeps the count in a `u32`.
pub open spec fn can_tick(s: TimerState, dt: nat) -> bool {
    s.status == Status::Running && dt >= s.remaining ==> can_advance(s)
}

/// The text `MM:SS` of a count of seconds, minutes zero-padded to two digits
/// or more.
pub open spec fn mmss(secs: nat) -> Seq<char> {
    crate::text::pad2(secs / 60).push(':') + crate::text::pad2(secs % 60)
}

/// A pomodoro timer.
#[derive(Debug)]
pub struct Timer {
    phase: Phase,
    status: Status,
    remaining_nanos: u128,
    completed_focus_sessions: u32,
}

impl View for Timer {
    type V = TimerState;

    closed spec fn view(&self) -> TimerState {
        TimerState {
            phase: self.phase,
            status: self.status,
            remaining: self.remaining_nanos as nat,
            completed: self.completed_focus_sessions as nat,
        }
    }
}

impl Clone for Timer {
    fn clone(&self) -> (t: Self)
        ensures
            t@ == self@,
    {
        proof { use_type_invariant(self); }
        Timer {
            phase: self.phase,
            status: self.status,
            remaining_nanos: self.remaining_nanos,
            completed_focus_sessions: self.completed_focus_sessions,
        }
    }
}

impl Timer {
    #[verifier::type_invariant]
    closed spec fn wf(self) -> bool {
        self.remaining_nanos <= MAX_REMAINING_NANOS
    }

    /// A full `phase` under `config`, in nanoseconds.
    fn phase_duration_of(config: &TimerConfig, phase: Phase) -> (n: u128)
        ensures
            n == phase_nanos(*config, phase),
            n <= MAX_REMAINING_NANOS,
    {
        let minutes = match phase {
            Phase::Focus => config.focus_minutes,
            Phase::ShortBreak => config.short_break_minutes,
            Phase::LongBreak => config.long_break_minutes,
        };
        (minutes as u128) * 60 * NANOS_PER_SEC
    }

    /// A fresh timer: an idle, full focus session, nothing completed.
    pub fn new(config: &TimerConfig) -> (t: Self)
        ensures
            t@ == (TimerState {
                phase: Phase::Focus,
                status: Status::Idle,
                remaining: phase_nanos(*config, Phase::Focus),
                completed: 0,
            }),
    {
        Timer {
            phase: Phase::Focus,
            status: Status::Idle,
            remaining_nanos: Self::phase_duration_of(config, Phase::Focus),
            completed_focus_sessions: 0,
        }
    }

    pub fn phase(&self) -> (p: Phase)
        ensures
            p == self@.phase,
    {
        self.phase
    }

    pub fn status(&self) -> (s: Status)
        ensures
            s == self@.status,
    {
        self.status
    }

    /// The time left in the current phase.
    pub fn remaining(&self) -> (d: Duration)
        ensures
            duration_nanos(d) == self@.remaining,
    {
        proof { use_type_invariant(self); }
        let secs = (self.remaining_nanos / NANOS_PER_SEC) as u64;
        let nanos = (self.remaining_nanos % NANOS_PER_SEC) as u32;
        duration_new(secs, nanos)
    }

    pub fn completed_focus_sessions(&self) -> (n: u32)
        ensures
            n == self@.completed,
    {
        self.completed_focus_sessions
    }

    /// Sets the countdown running.
    pub fn start(&mut self)
        ensures
            final(self)@ == (TimerState { status: Status::Running, ..old(self)@ }),
    {
        proof { use_type_invariant(&*self); }
        if self.status != Status::Running {
            self.status = Status::Running;
        }
    }

    /// Pauses a running countdown; any other timer stays as it is.
    pub fn pause(&mut self)
        ensures
            final(self)@ == (if old(self)@.status == Status::Running {
                TimerState { status: Status::Paused, ..old(self)@ }
            } else {
                old(self)@
            }),
    {
        proof { use_type_invariant(&*self); }
        if self.status == Status::Running {
            self.status = Status::Paused;
        }
    }

    /// Pauses a running countdown, and sets any other running.
    pub fn toggle(&mut self)
        ensures
            final(self)@ == (TimerState {
                status: if old(self)@.status == Status::Running { Status::Paused } else { Status::Running },
                ..old(self)@
            }),
    {
        proof { use_type_invariant(&*self); }
        self.status = if self.status == Status::Running {
            Status::Paused
        } else {
            Status::Running
        };
    }

    /// Stops the countdown and refills the current phase.
    pub fn reset(&mut self, config: &TimerConfig)
        ensures
            final(self)@ == (TimerState {
                status: Status::Idle,
                remaining: phase_nanos(*config, old(self)@.phase),
                ..old(self)@
            }),
    {
        proof { use_type_invariant(&*self); }
        self.status = Status::Idle;
        self.remaining_nanos = Self::phase_duration_of(config, self.phase);
    }

    /// Ends the current phase now and moves on to the next.
    pub fn skip(&mut self, config: &TimerConfig) -> (p: Phase)
        requires
            can_advance(old(self)@),
        ensures
            final(self)@ == advanced(old(self)@, *config),
            p == final(self)@.phase,
    {
        self.advance(config)
    }

    /// Lets `dt` pass. A running timer counts down, and moves on when the
    /// phase runs out; the phase it moved into is returned.
    pub fn tick(&mut self, dt: Duration, config: &TimerConfig) -> (r: Option<Phase>)
        requires
            can_tick(old(self)@, duration_nanos(dt) as nat),
        ensures
            (final(self)@, r) == ticked(old(self)@, duration_nanos(dt) as nat, *config),
    {
        proof { use_type_invariant(&*self); }
        if self.status != Status::Running {
            return None;
        }
        let dt_nanos = duration_as_nanos(dt);
        if dt_nanos >= self.remaining_nanos {
            self.remaining_nanos = 0;
            Some(self.advance(config))
        } else {
            self.remaining_nanos = self.remaining_nanos - dt_nanos;
            None
        }
    }

    /// The time left, as `MM:SS` of whole seconds.
    pub fn remaining_mmss(&self) -> (s: String)
        ensures
            s@ == mmss(self@.remaining / 1_000_000_000),
    {
        let secs = self.remaining_nanos / NANOS_PER_SEC;
        let mut s = String::new();
        push_pad2(&mut s, secs / 60);
        proof { reveal_strlit(":"); }
        s.append(":");
        push_pad2(&mut s, secs % 60);
        s
    }

    /// How long the current phase lasts in full.
    pub fn phase_duration(&self, config: &TimerConfig) -> (d: Duration)
        ensures
            duration_nanos(d) == phase_nanos(*config, self@.phase),
    {
        let n = Self::phase_duration_of(config, self.phase);
        duration_new((n / NANOS_PER_SEC) as u64, (n % NANOS_PER_SEC) as u32)
    }

    /// Moves on to the next phase: a finished focus session is counted, and
    /// the next phase starts full, running if the settings start it by
    /// itself. Returns that phase.
    pub fn advance(&mut self, config: &TimerConfig) -> (p: Phase)
        requires
            can_advance(old(self)@),
        ensures
            final(self)@ == advanced(old(self)@, *config),
            p == final(self)@.phase,
    {
        proof { use_type_invariant(&*self); }
        let next = match self.phase {
            Phase::Focus => {
                self.completed_focus_sessions = self.completed_focus_sessions + 1;
                let cycle = if config.cycles_before_long_break > 1 { config.cycles_before_long_break } else { 1 };
                if self.completed_focus_sessions % cycle == 0 {
                    Phase::LongBreak
                } else {
                    Phase::ShortBreak
                }
            },
            Phase::ShortBreak | Phase::LongBreak => Phase::Focus,
        };
        self.phase = next;
        self.remaining_nanos = Self::phase_duration_of(config, next);
        self.status = match next {
            Phase::Focus => if config.auto_start_focus { Status::Running } else { Status::Idle },
            _ => if config.auto_start_breaks { Status::Running } else { Status::Idle },
        };
        next
    }
}


/// A timer written down, to be picked up again after a restart.
pub struct TimerSnapshot {
    pub version: u32,
    pub phase: Phase,
    pub status: Status,
    pub remaining_secs: u64,
    pub completed_focus_sessions: u32,
    pub saved_at: UtcTime,
}

impl Clone for TimerSnapshot {
    fn clone(&self) -> (r: Self)
        ensures
            r == *self,
    {
        TimerSnapshot {
            version: self.version,
            phase: self.phase,
            status: self.status,
            remaining_secs: self.remaining_secs,
            completed_focus_sessions: self.completed_focus_sessions,
            saved_at: self.saved_at.clone(),
        }
    }
}

/// The timer that `snap` records, as it stood when saved.
pub open spec fn snapshot_state(snap: TimerSnapshot) -> TimerState {
    TimerState {
        phase: snap.phase,
        status: snap.status,
        remaining: snap.remaining_secs as nat * 1_000_000_000,
        completed: snap.completed_focus_sessions as nat,
    }
}

/// A running timer `s` after `elapsed` nanoseconds away, taken through at
/// most `rounds` phases: the time is subtracted from the current phase if it
/// fits; otherwise the phase is finished, the timer moves on, and the rest of
/// the time goes to the next phase, unless that phase does not start by
/// itself, in which case the rest is dropped.
pub open spec fn fast_forward(s: TimerState, elapsed: nat, cfg: TimerConfig, rounds: nat) -> TimerState
    decreases rounds,
{
    if rounds == 0 {
        s
    } else if elapsed < s.remaining {
        TimerState { remaining: (s.remaining - elapsed) as nat, ..s }
    } else if advanced(s, cfg).status != Status::Running {
        advanced(s, cfg)
    } else {
        fast_forward(advanced(s, cfg), (elapsed - s.remaining) as nat, cfg, (rounds - 1) as nat)
    }
}

/// Whether `fast_forward` keeps the count of focus sessions in a `u32`.
pub open spec fn fast_forward_ok(s: TimerState, elapsed: nat, cfg: TimerConfig, rounds: nat) -> bool
    decreases rounds,
{
    if rounds == 0 || elapsed < s.remaining {
        true
    } else {
        can_advance(s) && (advanced(s, cfg).status != Status::Running || fast_forward_ok(
            advanced(s, cfg),
            (elapsed - s.remaining) as nat,
            cfg,
            (rounds - 1) as nat,
        ))
    }
}

/// Whole seconds spent away, never negative.
pub open spec fn away_nanos(elapsed_secs: int) -> nat {
    (if elapsed_secs > 0 { elapsed_secs } else { 0 }) as nat * 1_000_000_000
}

/// The timer that `snap` gives back `elapsed_secs` seconds after it was
/// saved: a running timer is fast-forwarded through the time away (through
/// at most `RESTORE_ROUNDS` phases); any other comes back as it was saved.
pub open spec fn restored(snap: TimerSnapshot, cfg: TimerConfig, elapsed_secs: int) -> TimerState {
    if snap.status == Status::Running {
        fast_forward(snapshot_state(snap), away_nanos(elapsed_secs), cfg, RESTORE_ROUNDS as nat)
    } else {
        snapshot_state(snap)
    }
}

/// Whether restoring `snap` after `elapsed_secs` keeps the count in a `u32`.
pub open spec fn restorable(snap: TimerSnapshot, cfg: TimerConfig, elapsed_secs: int) -> bool {
    snap.status == Status::Running ==> fast_forward_ok(
        snapshot_state(snap),
        away_nanos(elapsed_secs),
        cfg,
        RESTORE_ROUNDS as nat,
    )
}

/// The whole seconds between `snap` being saved and `now`, as chrono counts
/// them.
pub open spec fn seconds_away(snap: TimerSnapshot, now: UtcTime) -> int {
    spec_num_seconds(spec_duration_since(now, snap.saved_at)) as int
}

impl Timer {
    /// Writes the timer down, stamped with the instant `now`. The time left
    /// is kept in whole seconds.
    pub fn snapshot_at(&self, now: UtcTime) -> (snap: TimerSnapshot)
        ensures
            snap.version == 1,
            snap.phase == self@.phase,
            snap.status == self@.status,
            snap.remaining_secs == self@.remaining / 1_000_000_000,
            snap.completed_focus_sessions == self@.completed,
            snap.saved_at == now,
    {
        proof { use_type_invariant(self); }
        TimerSnapshot {
            version: 1,
            phase: self.phase,
            status: self.status,
            remaining_secs: (self.remaining_nanos / NANOS_PER_SEC) as u64,
            completed_focus_sessions: self.completed_focus_sessions,
            saved_at: now,
        }
    }

    /// Writes the timer down, stamped with the current time; `None` where
    /// the clock cannot be read (see [`utc_now`]).
    pub fn snapshot(&self) -> (snap: Option<TimerSnapshot>)
        ensures
            snap matches Some(s) ==> s.version == 1 && s.phase == self@.phase && s.status == self@.status
                && s.remaining_secs == self@.remaining / 1_000_000_000 && s.completed_focus_sessions
                == self@.completed,
    {
        match utc_now() {
            Some(now) => Some(self.snapshot_at(now)),
            None => None,
        }
    }

    /// Picks a snapshot up again now. Whatever the clock reads, the timer is
    /// the snapshot restored after some whole number of seconds; `None`
    /// where the clock cannot be read (see [`utc_now`]).
    pub fn restore(snapshot: TimerSnapshot, config: &TimerConfig) -> (t: Option<Self>)
        requires
            forall|e: int| i64::MIN <= e <= i64::MAX ==> restorable(snapshot, *config, e),
        ensures
            t matches Some(t) ==> exists|e: i64| #[trigger] restored(snapshot, *config, e as int) == t@,
    {
        match utc_now() {
            Some(now) => Some(Self::restore_at(snapshot, config, now)),
            None => None,
        }
    }

    /// Picks a snapshot up again at the instant `now`.
    pub fn restore_at(snapshot: TimerSnapshot, config: &TimerConfig, now: UtcTime) -> (t: Self)
        requires
            restorable(snapshot, *config, seconds_away(snapshot, now)),
        ensures
            t@ == restored(snapshot, *config, seconds_away(snapshot, now)),
    {
        let delta = duration_since(&now, &snapshot.saved_at);
        let elapsed = num_seconds(&delta);
        Self::restore_after(snapshot, config, elapsed)
    }

    /// Picks a snapshot up again `elapsed_secs` whole seconds after it was
    /// saved.
    pub fn restore_after(snapshot: TimerSnapshot, config: &TimerConfig, elapsed_secs: i64) -> (t: Self)
        requires
            restorable(snapshot, *config, elapsed_secs as int),
        ensures
            t@ == restored(snapshot, *config, elapsed_secs as int),
    {
        let mut t = Timer {
            phase: snapshot.phase,
            status: snapshot.status,
            remaining_nanos: (snapshot.remaining_secs as u128) * NANOS_PER_SEC,
            completed_focus_sessions: snapshot.completed_focus_sessions,
        };
        if t.status == Status::Running {
            let away: u64 = if elapsed_secs > 0 { elapsed_secs as u64 } else { 0 };
            let mut elapsed: u128 = (away as u128) * NANOS_PER_SEC;
            let ghost target = restored(snapshot, *config, elapsed_secs as int);
            let mut rounds: u32 = 0;
            let mut done = false;
            while rounds < RESTORE_ROUNDS && !done
                invariant
                    rounds <= RESTORE_ROUNDS,
                    done ==> t@ == target,
                    !done ==> t@.status == Status::Running,
                    !done ==> fast_forward(t@, elapsed as nat, *config, (RESTORE_ROUNDS - rounds) as nat) == target,
                    !done ==> fast_forward_ok(t@, elapsed as nat, *config, (RESTORE_ROUNDS - rounds) as nat),
                decreases RESTORE_ROUNDS - rounds,
            {
                proof { use_type_invariant(&t); }
                if elapsed < t.remaining_nanos {
                    t.remaining_nanos = t.remaining_nanos - elapsed;
                    done = true;
                } else {
                    elapsed = elapsed - t.remaining_nanos;
                    t.advance(config);
                    if t.status != Status::Running {
                        done = true;
                    }
                }
                rounds = rounds + 1;
            }
        }
        t
    }
}

/// How many focus sessions `rounds` moves on from `s` can finish at most:
/// focus and breaks alternate, so every other phase is a focus session.
pub open spec fn focus_ahead(s: TimerState, rounds: nat) -> nat {
    if s.phase == Phase::Focus {
        (rounds + 1) / 2
    } else {
        rounds / 2
    }
}

/// Fast-forwarding keeps the count in a `u32` when the count leaves room
/// for the focus sessions that the rounds can finish.
pub proof fn lemma_fast_forward_ok_with_room(s: TimerState, elapsed: nat, cfg: TimerConfig, rounds: nat)
    requires
        s.completed + focus_ahead(s, rounds) <= u32::MAX,
    ensures
        fast_forward_ok(s, elapsed, cfg, rounds),
    decreases rounds,
{
    if rounds > 0 && elapsed >= s.remaining {
        let next = advanced(s, cfg);
        if next.status == Status::Running {
            lemma_fast_forward_ok_with_room(next, (elapsed - s.remaining) as nat, cfg, (rounds - 1) as nat);
        }
    }
}

/// A snapshot whose count leaves room for the sixteen focus sessions that
/// `RESTORE_ROUNDS` phases can finish can be restored after any time away:
/// this meets what [`Timer::restore`] requires.
pub proof fn lemma_restorable_with_room(snap: TimerSnapshot, cfg: TimerConfig)
    requires
        snap.completed_focus_sessions <= u32::MAX - 16,
    ensures
        forall|e: int| #[trigger] restorable(snap, cfg, e),
{
    assert forall|e: int| #[trigger] restorable(snap, cfg, e) by {
        lemma_fast_forward_ok_with_room(snapshot_state(snap), away_nanos(e), cfg, RESTORE_ROUNDS as nat);
    }
}

/// Whether the time left in `s` is at most its full phase under `cfg`.
pub open spec fn within_phase(s: TimerState, cfg: TimerConfig) -> bool {
    s.remaining <= phase_nanos(cfg, s.phase)
}

/// Under one setting, no operation leaves more time than the phase holds in
/// full: a fresh timer starts full, and starting, pausing, toggling,
/// resetting, ticking and moving on all keep the time left within the phase.
pub proof fn lemma_time_left_within_phase(s: TimerState, cfg: TimerConfig, dt: nat)
    requires
        within_phase(s, cfg),
    ensures
        within_phase(
            TimerState { phase: Phase::Focus, status: Status::Idle, remaining: phase_nanos(cfg, Phase::Focus), completed: 0 },
            cfg,
        ),
        within_phase(TimerState { status: Status::Running, ..s }, cfg),
        within_phase(TimerState { status: Status::Paused, ..s }, cfg),
        within_phase(TimerState { status: Status::Idle, remaining: phase_nanos(cfg, s.phase), ..s }, cfg),
        within_phase(advanced(s, cfg), cfg),
        within_phase(ticked(s, dt, cfg).0, cfg),
{
}

/// Focus and breaks alternate: a focus session is always followed by a
/// break (a long one exactly when it closes a cycle), and a break by focus.
/// Each finished focus session is counted once, and only those are.
pub proof fn lemma_phases_alternate(s: TimerState, cfg: TimerConfig)
    ensures
        s.phase == Phase::Focus ==> advanced(s, cfg).phase != Phase::Focus,
        s.phase == Phase::Focus ==> (advanced(s, cfg).phase == Phase::LongBreak <==> (s.completed + 1)
            % cycle_len(cfg) == 0),
        s.phase != Phase::Focus ==> advanced(s, cfg).phase == Phase::Focus,
        advanced(s, cfg).completed == s.completed + (if s.phase == Phase::Focus { 1int } else { 0int }),
        s.phase == Phase::Focus ==> advanced(advanced(s, cfg), cfg).phase == Phase::Focus,
{
}

/// A tick changes a running timer only: a paused or idle timer keeps its
/// time and phase. A tick that ends the phase moves on exactly as skipping
/// would; any other only takes the time off.
pub proof fn lemma_tick_is_countdown_or_skip(s: TimerState, dt: nat, cfg: TimerConfig)
    ensures
        s.status != Status::Running ==> ticked(s, dt, cfg) == (s, None::<Phase>),
        s.status == Status::Running && dt >= s.remaining ==> ticked(s, dt, cfg).0 == advanced(s, cfg),
        s.status == Status::Running && dt < s.remaining ==> ticked(s, dt, cfg).0 == (TimerState {
            remaining: (s.remaining - dt) as nat,
            ..s
        }),
        ticked(s, dt, cfg).1 is Some <==> (s.status == Status::Running && dt >= s.remaining),
{
}

/// Toggling twice gives back a running or paused timer unchanged (an idle
/// timer comes back paused).
pub proof fn lemma_toggle_twice(s: TimerState)
    ensures
        s.status != Status::Idle ==> ({
            let once = TimerState {
                status: if s.status == Status::Running { Status::Paused } else { Status::Running },
                ..s
            };
            TimerState {
                status: if once.status == Status::Running { Status::Paused } else { Status::Running },
                ..once
            } == s
        }),
{
}

/// A snapshot that was not running comes back as it was saved, however long
/// the timer was away.
pub proof fn lemma_restore_stopped_ignores_time(snap: TimerSnapshot, cfg: TimerConfig, e1: int, e2: int)
    requires
        snap.status != Status::Running,
    ensures
        restored(snap, cfg, e1) == restored(snap, cfg, e2),
        restored(snap, cfg, e1) == snapshot_state(snap),
{
}

/// A running snapshot picked up before its phase ran out has the time away
/// taken off, and is otherwise as saved.
pub proof fn lemma_restore_running_counts_down(snap: TimerSnapshot, cfg: TimerConfig, elapsed_secs: int)
    requires
        snap.status == Status::Running,
        0 <= elapsed_secs < snap.remaining_secs,
    ensures
        restored(snap, cfg, elapsed_secs) == (TimerState {
            remaining: ((snap.remaining_secs - elapsed_secs) * 1_000_000_000) as nat,
            ..snapshot_state(snap)
        }),
{
    assert(away_nanos(elapsed_secs) < snapshot_state(snap).remaining) by (nonlinear_arith)
        requires
            away_nanos(elapsed_secs) == elapsed_secs * 1_000_000_000,
            snapshot_state(snap).remaining == snap.remaining_secs * 1_000_000_000,
            elapsed_secs < snap.remaining_secs,
    ;
    assert(snapshot_state(snap).remaining - away_nanos(elapsed_secs) == (snap.remaining_secs - elapsed_secs)
        * 1_000_000_000) by (nonlinear_arith)
        requires
            away_nanos(elapsed_secs) == elapsed_secs * 1_000_000_000,
            snapshot_state(snap).remaining == snap.remaining_secs * 1_000_000_000,
    ;
}

/// Writing a timer down and picking it up at once gives it back, its time
/// left rounded down to whole seconds, unless it was running with less than
/// a second left (then the phase has run out and the timer moves on).
pub proof fn lemma_snapshot_round_trip(s: TimerState, snap: TimerSnapshot, cfg: TimerConfig)
    requires
        snap.phase == s.phase,
        snap.status == s.status,
        snap.remaining_secs == s.remaining / 1_000_000_000,
        snap.completed_focus_sessions == s.completed,
        s.status == Status::Running ==> s.remaining >= 1_000_000_000,
    ensures
        restored(snap, cfg, 0) == (TimerState { remaining: s.remaining / 1_000_000_000 * 1_000_000_000, ..s }),
{
    if s.status == Status::Running {
        assert(snapshot_state(snap).remaining > 0) by (nonlinear_arith)
            requires
                snapshot_state(snap).remaining == snap.remaining_secs * 1_000_000_000,
                snap.remaining_secs == s.remaining / 1_000_000_000,
                s.remaining >= 1_000_000_000,
        ;
    }
}
/// The full length of `phase` under `cfg` in nanoseconds, read straight off
/// the settings.
pub open spec fn full_nanos(cfg: TimerConfig, phase: Phase) -> int {
    if phase == Phase::Focus {
        cfg.focus_minutes * 60_000_000_000
    } else if phase == Phase::ShortBreak {
        cfg.short_break_minutes * 60_000_000_000
    } else {
        cfg.long_break_minutes * 60_000_000_000
    }
}

/// Moving on follows the settings: a break starts by itself exactly when
/// `auto_start_breaks` is on and waits otherwise, a focus session starts by
/// itself exactly when `auto_start_focus` is on; the phase moved into is
/// full, and only a finished focus session is counted.
pub proof fn lemma_advance_follows_settings(s: TimerState, cfg: TimerConfig)
    ensures
        advanced(s, cfg).phase != Phase::Focus ==> advanced(s, cfg).status == (if cfg.auto_start_breaks {
            Status::Running
        } else {
            Status::Idle
        }),
        advanced(s, cfg).phase == Phase::Focus ==> advanced(s, cfg).status == (if cfg.auto_start_focus {
            Status::Running
        } else {
            Status::Idle
        }),
        advanced(s, cfg).remaining == full_nanos(cfg, advanced(s, cfg).phase),
        s.phase == Phase::Focus ==> advanced(s, cfg).phase != Phase::Focus && advanced(s, cfg).completed
            == s.completed + 1,
        s.phase == Phase::Focus ==> (advanced(s, cfg).phase == Phase::LongBreak <==> (cfg.cycles_before_long_break
            <= 1 || (s.completed + 1) % (cfg.cycles_before_long_break as nat) == 0)),
        s.phase != Phase::Focus ==> advanced(s, cfg).phase == Phase::Focus && advanced(s, cfg).completed
            == s.completed,
{
}

/// Fast-forwarding a running timer through time away ends in one of two
/// ways: still running, or stopped in a phase that did not start by itself,
/// and then that phase is full: whatever time away was left over when it
/// began is dropped, in whichever round that happens.
pub proof fn lemma_fast_forward_stops_full(s: TimerState, elapsed: nat, cfg: TimerConfig, rounds: nat)
    requires
        s.status == Status::Running,
    ensures
        fast_forward(s, elapsed, cfg, rounds).status != Status::Running ==> fast_forward(s, elapsed, cfg, rounds).status
            == Status::Idle && fast_forward(s, elapsed, cfg, rounds).remaining == full_nanos(
            cfg,
            fast_forward(s, elapsed, cfg, rounds).phase,
        ),
    decreases rounds,
{
    lemma_advance_follows_settings(s, cfg);
    if rounds > 0 && elapsed >= s.remaining && advanced(s, cfg).status == Status::Running {
        lemma_fast_forward_stops_full(advanced(s, cfg), (elapsed - s.remaining) as nat, cfg, (rounds - 1) as nat);
    }
}

/// Restoring a running snapshot after the time away has run past the end of
/// its phase, where the next phase does not start by itself: the timer has
/// moved on once and waits, idle, with that phase full.
pub proof fn lemma_restore_waits_with_full_phase(snap: TimerSnapshot, cfg: TimerConfig, elapsed_secs: int)
    requires
        snap.status == Status::Running,
        elapsed_secs >= snap.remaining_secs,
        advanced(snapshot_state(snap), cfg).status != Status::Running,
    ensures
        restored(snap, cfg, elapsed_secs) == advanced(snapshot_state(snap), cfg),
        restored(snap, cfg, elapsed_secs).status == Status::Idle,
        restored(snap, cfg, elapsed_secs).remaining == full_nanos(cfg, restored(snap, cfg, elapsed_secs).phase),
{
    lemma_advance_follows_settings(snapshot_state(snap), cfg);
    assert(away_nanos(elapsed_secs) >= snapshot_state(snap).remaining) by (nonlinear_arith)
        requires
            away_nanos(elapsed_secs) == elapsed_secs * 1_000_000_000,
            snapshot_state(snap).remaining == snap.remaining_secs * 1_000_000_000,
            elapsed_secs >= snap.remaining_secs,
    ;
}

/// A restored running snapshot that has stopped waits, idle, in a full
/// phase: no time away is ever taken off a phase that did not start.
pub proof fn lemma_restored_stopped_is_full(snap: TimerSnapshot, cfg: TimerConfig, elapsed_secs: int)
    requires
        snap.status == Status::Running,
    ensures
        restored(snap, cfg, elapsed_secs).status != Status::Running ==> restored(snap, cfg, elapsed_secs).status
            == Status::Idle && restored(snap, cfg, elapsed_secs).remaining == full_nanos(
            cfg,
            restored(snap, cfg, elapsed_secs).phase,
        ),
{
    lemma_fast_forward_stops_full(snapshot_state(snap), away_nanos(elapsed_secs), cfg, RESTORE_ROUNDS as nat);
}

/// The value of a string of decimal digits, read from the characters' codes.
pub open spec fn digits_value(t: Seq<char>) -> int
    decreases t.len(),
{
    if t.len() == 0 {
        0
    } else {
        digits_value(t.drop_last()) * 10 + (t.last() as int - '0' as int)
    }
}

/// Whether every character of `t` is one of `0` to `9`.
pub open spec fn all_digits(t: Seq<char>) -> bool {
    forall|k: int| 0 <= k < t.len() ==> '0' as int <= #[trigger] t[k] as int <= '9' as int
}

proof fn lemma_digit_code(d: nat)
    requires
        d < 10,
    ensures
        crate::text::digit_char(d) as int - '0' as int == d,
{
}

proof fn lemma_decimal_value(n: nat)
    ensures
        all_digits(crate::text::decimal(n)),
        digits_value(crate::text::decimal(n)) == n,
        crate::text::decimal(n).len() >= 1,
        n >= 10 ==> crate::text::decimal(n)[0] != '0',
        n >= 10 ==> crate::text::decimal(n).len() >= 2,
    decreases n,
{
    let d = crate::text::decimal(n);
    lemma_digit_code(n % 10);
    if n < 10 {
        assert(d.drop_last() =~= Seq::<char>::empty());
        assert(digits_value(d) == digits_value(d.drop_last()) * 10 + (d.last() as int - '0' as int));
    }
    if n >= 10 {
        lemma_decimal_value(n / 10);
        assert(d.drop_last() == crate::text::decimal(n / 10));
        assert(d.last() == crate::text::digit_char(n % 10));
        assert(digits_value(d) == digits_value(d.drop_last()) * 10 + (d.last() as int - '0' as int));
        assert(n == (n / 10) * 10 + n % 10);
        assert(d[0] == crate::text::decimal(n / 10)[0]);
        let m = n / 10;
        if m < 10 {
            assert(m != 0);
        }
    }
}

/// The clock text of `secs` seconds reads back as it should: minutes, a
/// colon, and the seconds within the minute as exactly two digits. The
/// minutes are at least two digits, with no leading zero beyond that, and
/// their value is the whole minutes.
pub proof fn lemma_mmss_reads_back(secs: nat)
    ensures
        ({
            let t = mmss(secs);
            let m = t.subrange(0, t.len() - 3);
            &&& t.len() >= 5
            &&& t[t.len() - 3] == ':'
            &&& '0' as int <= t[t.len() - 2] as int <= '9' as int
            &&& '0' as int <= t[t.len() - 1] as int <= '9' as int
            &&& (t[t.len() - 2] as int - '0' as int) * 10 + (t[t.len() - 1] as int - '0' as int) == secs % 60
            &&& all_digits(m)
            &&& digits_value(m) == secs / 60
            &&& m.len() > 2 ==> m[0] != '0'
        }),
{
    let mins = secs / 60;
    let sec = secs % 60;
    let t = mmss(secs);
    let p = crate::text::pad2(mins);
    let q = crate::text::pad2(sec);
    lemma_decimal_value(mins);
    lemma_decimal_value(sec);
    if mins < 10 {
        lemma_digit_code(mins);
        assert(digits_value(p) == mins) by {
            assert(p.drop_last() =~= seq!['0']);
            assert(seq!['0'].drop_last() =~= Seq::<char>::empty());
            assert(digits_value(seq!['0']) == digits_value(seq!['0'].drop_last()) * 10 + ('0' as int - '0' as int));
            assert(p.last() == crate::text::digit_char(mins));
            assert(digits_value(p) == digits_value(p.drop_last()) * 10 + (p.last() as int - '0' as int));
        }
    }
    lemma_digit_code(sec % 10);
    lemma_digit_code(sec / 10);
    if sec < 10 {
        assert(q =~= seq!['0', crate::text::digit_char(sec)]);
    } else {
        let d = crate::text::decimal(sec);
        assert(d.drop_last() == crate::text::decimal(sec / 10));
        assert(crate::text::decimal(sec / 10) =~= seq![crate::text::digit_char(sec / 10)]);
        assert(q =~= seq![crate::text::digit_char(sec / 10), crate::text::digit_char(sec % 10)]);
    }
    assert(t =~= p.push(':') + q);
    assert(t.subrange(0, t.len() - 3) =~= p);
}

} // verus!
