//! What the timer page shows and says: the phase and status texts, the
//! start button, the session dots, and the notices sent when a phase ends.
//! Also what one beat of the page's clock does to the timer and the tasks,
//! and when the running timer is written down.

use vstd::prelude::*;
use vstd::string::*;
use std::time::{Duration, Instant};
use crate::clock::{duration_as_nanos, duration_nanos, duration_new, instant_since, spec_instant_since};
use crate::config::TimerConfig;
use crate::text::{decimal, push_decimal};
use crate::timer::{can_tick, ticked, Phase, Status, Timer, TimerState};
use crate::todo::{
    active_index, can_credit_active, lemma_active_index_in_range, lemma_same_id_keeps_active, Todo, TodoStore,
};

verus! {

/// The heading of a phase.
pub open spec fn phase_title(p: Phase) -> Seq<char> {
    match p {
        Phase::Focus => "FOCUS"@,
        Phase::ShortBreak => "SHORT BREAK"@,
        Phase::LongBreak => "LONG BREAK"@,
    }
}

/// The heading of a phase.
pub fn phase_label(p: Phase) -> (s: &'static str)
    ensures
        s@ == phase_title(p),
{
    match p {
        Phase::Focus => "FOCUS",
        Phase::ShortBreak => "SHORT BREAK",
        Phase::LongBreak => "LONG BREAK",
    }
}

/// The style class that colours a phase's heading and dots.
pub open spec fn phase_class_name(p: Phase) -> Seq<char> {
    match p {
        Phase::Focus => "tm-phase-focus"@,
        Phase::ShortBreak => "tm-phase-short"@,
        Phase::LongBreak => "tm-phase-long"@,
    }
}

/// The style class that colours a phase's heading and dots.
pub fn phase_css_class(p: Phase) -> (s: &'static str)
    ensures
        s@ == phase_class_name(p),
{
    match p {
        Phase::Focus => "tm-phase-focus",
        Phase::ShortBreak => "tm-phase-short",
        Phase::LongBreak => "tm-phase-long",
    }
}

/// The style class that colours a phase's progress ring.
pub open spec fn ring_class_name(p: Phase) -> Seq<char> {
    match p {
        Phase::Focus => "tm-ring-focus"@,
        Phase::ShortBreak => "tm-ring-short"@,
        Phase::LongBreak => "tm-ring-long"@,
    }
}

/// The style class that colours a phase's progress ring.
pub fn ring_css_class(p: Phase) -> (s: &'static str)
    ensures
        s@ == ring_class_name(p),
{
    match p {
        Phase::Focus => "tm-ring-focus",
        Phase::ShortBreak => "tm-ring-short",
        Phase::LongBreak => "tm-ring-long",
    }
}

/// The caption under the countdown.
pub open spec fn status_caption(s: Status) -> Seq<char> {
    match s {
        Status::Running => "REMAINING"@,
        Status::Paused => "PAUSED"@,
        Status::Idle => "READY"@,
    }
}

/// The caption under the countdown.
pub fn status_label(s: Status) -> (t: &'static str)
    ensures
        t@ == status_caption(s),
{
    match s {
        Status::Running => "REMAINING",
        Status::Paused => "PAUSED",
        Status::Idle => "READY",
    }
}

/// The label of the main button: it pauses a running timer, and otherwise
/// starts the phase.
pub open spec fn start_caption(phase: Phase, status: Status) -> Seq<char> {
    if status == Status::Running {
        "Pause"@
    } else {
        match phase {
            Phase::Focus => "Start Focus"@,
            _ => "Start Break"@,
        }
    }
}

/// The label of the main button.
pub fn start_button_label(phase: Phase, status: Status) -> (t: &'static str)
    ensures
        t@ == start_caption(phase, status),
{
    if status == Status::Running {
        "Pause"
    } else {
        match phase {
            Phase::Focus => "Start Focus",
            Phase::ShortBreak | Phase::LongBreak => "Start Break",
        }
    }
}

/// Focus sessions per cycle on the page; a setting of zero counts as one.
pub open spec fn cycle_of(cycles_setting: u32) -> nat {
    if cycles_setting == 0 { 1 } else { cycles_setting as nat }
}

/// How many dots are drawn: one per session of the cycle, eight at most.
pub open spec fn dot_count(cycles_setting: u32) -> nat {
    if cycle_of(cycles_setting) < 8 { cycle_of(cycles_setting) } else { 8 }
}

/// The session dots: one per focus session of the cycle (eight at most),
/// lit for the sessions of the current cycle that are done.
pub fn session_dots(completed: u32, cycles_setting: u32) -> (dots: Vec<bool>)
    ensures
        dots@.len() == dot_count(cycles_setting),
        forall|i: int| 0 <= i < dots@.len() ==> #[trigger] dots@[i] == (i < completed as nat % cycle_of(cycles_setting)),
{
    let cycles = if cycles_setting > 1 { cycles_setting } else { 1 };
    let done = completed % cycles;
    let shown = if cycles < 8 { cycles } else { 8 };
    let mut dots: Vec<bool> = Vec::new();
    let mut i: u32 = 0;
    while i < shown
        invariant
            i <= shown,
            shown == dot_count(cycles_setting),
            done == completed as nat % cycle_of(cycles_setting),
            dots@.len() == i,
            forall|k: int| 0 <= k < i ==> #[trigger] dots@[k] == (k < done),
        decreases shown - i,
    {
        dots.push(i < done);
        i = i + 1;
    }
    dots
}

/// The session counter on the pill: sessions done in this cycle, a slash,
/// sessions per cycle.
pub open spec fn cycle_text(completed: u32, cycles_setting: u32) -> Seq<char> {
    decimal(completed as nat % cycle_of(cycles_setting)).push('/') + decimal(cycle_of(cycles_setting))
}

/// The session counter on the pill.
pub fn cycle_label(completed: u32, cycles_setting: u32) -> (s: String)
    ensures
        s@ == cycle_text(completed, cycles_setting),
{
    let cycles = if cycles_setting > 1 { cycles_setting } else { 1 };
    let mut s = String::new();
    push_decimal(&mut s, (completed % cycles) as u128);
    proof { reveal_strlit("/"); }
    s.append("/");
    push_decimal(&mut s, cycles as u128);
    s
}

/// The summary and body of the notice sent on entering a phase.
pub open spec fn notice_text(p: Phase) -> (Seq<char>, Seq<char>) {
    match p {
        Phase::Focus => ("Break over"@, "Back to work — stay focused."@),
        Phase::ShortBreak => ("Focus complete"@, "Nice work. Take a short break."@),
        Phase::LongBreak => ("Session finished"@, "Great job — enjoy a long break."@),
    }
}

/// The notice sent on entering the phase `p`: its summary and body.
pub fn phase_notice(p: Phase) -> (n: (&'static str, &'static str))
    ensures
        (n.0@, n.1@) == notice_text(p),
{
    match p {
        Phase::Focus => ("Break over", "Back to work — stay focused."),
        Phase::ShortBreak => ("Focus complete", "Nice work. Take a short break."),
        Phase::LongBreak => ("Session finished", "Great job — enjoy a long break."),
    }
}

/// The views of an optional notice.
pub open spec fn notice_view(n: Option<(&'static str, &'static str)>) -> Option<(Seq<char>, Seq<char>)> {
    match n {
        Some(p) => Some((p.0@, p.1@)),
        None => None,
    }
}

/// Whether the notice for a timer picked up after a restart is due: notices
/// are on, and the timer went from focus into a break while away.
pub open spec fn missed_notice_due(enabled: bool, before: Phase, after: Phase) -> bool {
    enabled && after != Phase::Focus && before == Phase::Focus
}

/// The notice for a timer picked up after a restart, if one is due: the
/// notice of the break it is now in.
pub fn missed_session_notice(enabled: bool, before: Phase, after: Phase) -> (n: Option<(&'static str, &'static str)>)
    ensures
        notice_view(n) == if missed_notice_due(enabled, before, after) {
            Some(notice_text(after))
        } else {
            None
        },
{
    if enabled && (after == Phase::ShortBreak || after == Phase::LongBreak) && before == Phase::Focus {
        if after == Phase::LongBreak {
            Some(("Session finished", "Great job — enjoy a long break."))
        } else {
            Some(("Focus complete", "Nice work. Take a short break."))
        }
    } else {
        None
    }
}

/// `items` with `n` more focus sessions credited to the task at `i`.
pub open spec fn credited(items: Seq<Todo>, i: int, n: nat) -> Seq<Todo> {
    items.update(i, Todo { pomodoros_done: (items[i].pomodoros_done + n) as u32, ..items[i] })
}

/// Whether `n` more sessions keep the worked-on task's count in a `u32`.
pub open spec fn can_credit_many(store: TodoStore, n: nat) -> bool {
    active_index(store) matches Some(i) ==> store.items@[i].pomodoros_done + n <= u32::MAX
}

/// Credits the focus sessions that finished while the panel was closed
/// (from `before` done to `after` done) to the task being worked on, one by
/// one. Returns how many finished.
pub fn credit_missed_sessions(store: &mut TodoStore, before: u32, after: u32) -> (n: u32)
    requires
        after > before ==> can_credit_many(*old(store), (after - before) as nat),
    ensures
        n == if after > before { after - before } else { 0 },
        final(store).version == old(store).version,
        final(store).active_id == old(store).active_id,
        match active_index(*old(store)) {
            Some(i) => final(store).items@ == credited(old(store).items@, i, n as nat),
            None => final(store).items@ == old(store).items@,
        },
{
    proof { lemma_active_index_in_range(*old(store)); }
    if after <= before {
        proof {
            if let Some(i) = active_index(*old(store)) {
                assert(store.items@ =~= credited(old(store).items@, i, 0));
            }
        }
        return 0;
    }
    let n = after - before;
    let mut k: u32 = 0;
    proof {
        if let Some(i) = active_index(*old(store)) {
            assert(store.items@ =~= credited(old(store).items@, i, 0));
        }
    }
    while k < n
        invariant
            k <= n,
            n == after - before,
            can_credit_many(*old(store), n as nat),
            store.version == old(store).version,
            store.active_id == old(store).active_id,
            active_index(*store) == active_index(*old(store)),
            match active_index(*old(store)) {
                Some(i) => store.items@ == credited(old(store).items@, i, k as nat),
                None => store.items@ == old(store).items@,
            },
        decreases n - k,
    {
        let ghost prev = *store;
        proof {
            lemma_active_index_in_range(*old(store));
            lemma_active_index_in_range(prev);
        }
        store.increment_active_pomodoro();
        proof {
            if let Some(i) = active_index(*old(store)) {
                assert(store.items@ =~= credited(old(store).items@, i, (k + 1) as nat));
                lemma_same_id_keeps_active(prev, *store, i, store.items@[i]);
            }
        }
        k = k + 1;
    }
    n
}

/// What one beat of the timer page's clock did.
pub struct TickOutcome {
    /// Whether the timer was running, so that the beat counted.
    pub ran: bool,
    /// The phase the timer moved into, if its phase ran out.
    pub phase: Option<Phase>,
    /// Whether a focus session was credited to the task being worked on.
    pub credited: bool,
    /// The notice to send, if any.
    pub notice: Option<(&'static str, &'static str)>,
}

/// The length of one beat of the timer page's clock, in nanoseconds.
pub const BEAT_NANOS: u32 = 250_000_000;

/// Whether a beat keeps every count in a `u32`.
pub open spec fn beat_ok(t: TimerState, store: TodoStore, cfg: TimerConfig) -> bool {
    t.status == Status::Running ==> {
        &&& can_tick(t, BEAT_NANOS as nat)
        &&& (ticked(t, BEAT_NANOS as nat, cfg).1 matches Some(p) && p != Phase::Focus) ==> can_credit_active(store)
    }
}

/// One beat (a quarter second) of the timer page's clock. A running timer
/// counts down; when its phase runs out, a finished focus session is
/// credited to the task being worked on, and the notice of the new phase is
/// due if notices are on.
pub fn on_tick(timer: &mut Timer, store: &mut TodoStore, config: &TimerConfig, notify: bool) -> (out: TickOutcome)
    requires
        beat_ok(old(timer)@, *old(store), *config),
    ensures
        out.ran == (old(timer)@.status == Status::Running),
        !out.ran ==> final(timer)@ == old(timer)@ && out.phase is None,
        out.ran ==> (final(timer)@, out.phase) == ticked(old(timer)@, BEAT_NANOS as nat, *config),
        out.credited == (out.phase matches Some(p) && p != Phase::Focus && active_index(*old(store)) is Some),
        final(store).version == old(store).version,
        final(store).active_id == old(store).active_id,
        out.credited ==> final(store).items@ == credited(old(store).items@, active_index(*old(store))->0, 1),
        !out.credited ==> final(store).items@ == old(store).items@,
        notice_view(out.notice) == match out.phase {
            Some(p) => if notify { Some(notice_text(p)) } else { None },
            None => None,
        },
{
    if timer.status() != Status::Running {
        return TickOutcome { ran: false, phase: None, credited: false, notice: None };
    }
    let beat: Duration = duration_new(0, BEAT_NANOS);
    let phase = timer.tick(beat, config);
    let mut did_credit = false;
    let mut notice = None;
    if let Some(p) = phase {
        if p == Phase::ShortBreak || p == Phase::LongBreak {
            did_credit = store.increment_active_pomodoro();
            proof {
                if let Some(i) = active_index(*old(store)) {
                    assert(store.items@ =~= credited(old(store).items@, i, 1));
                }
            }
        }
        if notify {
            notice = Some(phase_notice(p));
        }
    }
    TickOutcome { ran: true, phase, credited: did_credit, notice }
}

/// How long the running timer goes between being written down: a second,
/// in nanoseconds.
pub const SAVE_INTERVAL_NANOS: u128 = 1_000_000_000;

/// Whether the running timer is due to be written down again at `now`,
/// the last time being `last_save`: a second or more has passed.
pub fn save_due(last_save: &Instant, now: &Instant) -> (due: bool)
    ensures
        due == (duration_nanos(spec_instant_since(*now, *last_save)) >= SAVE_INTERVAL_NANOS),
{
    let since = instant_since(now, last_save);
    duration_as_nanos(since) >= SAVE_INTERVAL_NANOS
}

} // verus!
