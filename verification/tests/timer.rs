use std::time::Duration;

use chrono::Utc;
use tomato::clock::UtcTime;
use tomato::config::TimerConfig;
use tomato::timer::{Phase, Status, Timer, TimerSnapshot};

fn snapshot(phase: Phase, status: Status, remaining_secs: u64, completed: u32, secs_ago: i64) -> TimerSnapshot {
    TimerSnapshot {
        version: 1,
        phase,
        status,
        remaining_secs,
        completed_focus_sessions: completed,
        saved_at: UtcTime(Utc::now() - chrono::Duration::seconds(secs_ago)),
    }
}

fn now() -> UtcTime {
    UtcTime(Utc::now())
}

#[test]
fn focus_advances_to_long_break_at_cycle_boundary() {
    let cfg = TimerConfig::default();
    // A fresh timer with three focus sessions already completed.
    let mut t = Timer::restore_at(snapshot(Phase::Focus, Status::Idle, 25 * 60, 3, 0), &cfg, now());
    t.start();
    let next = t.tick(Duration::from_secs(25 * 60), &cfg);
    assert_eq!(next, Some(Phase::LongBreak));
    assert_eq!(t.phase(), Phase::LongBreak);
    assert_eq!(t.completed_focus_sessions(), 4);
    assert_eq!(t.remaining(), Duration::from_secs(15 * 60));
}

#[test]
fn focus_advances_to_short_break_off_boundary() {
    let cfg = TimerConfig::default();
    let mut t = Timer::new(&cfg);
    t.start();
    let next = t.tick(Duration::from_secs(25 * 60), &cfg);
    assert_eq!(next, Some(Phase::ShortBreak));
    assert_eq!(t.phase(), Phase::ShortBreak);
    assert_eq!(t.completed_focus_sessions(), 1);
    assert_eq!(t.remaining(), Duration::from_secs(5 * 60));
}

#[test]
fn paused_tick_does_not_decrement() {
    let cfg = TimerConfig::default();
    let mut t = Timer::new(&cfg);
    t.start();
    t.pause();
    let before = t.remaining();
    assert_eq!(t.tick(Duration::from_secs(60), &cfg), None);
    assert_eq!(t.remaining(), before);
}

#[test]
fn reset_restores_full_phase_duration() {
    let cfg = TimerConfig::default();
    let mut t = Timer::new(&cfg);
    t.start();
    t.tick(Duration::from_secs(60), &cfg);
    t.reset(&cfg);
    assert_eq!(t.status(), Status::Idle);
    assert_eq!(t.remaining(), Duration::from_secs(25 * 60));
}

#[test]
fn skip_advances_phase() {
    let cfg = TimerConfig::default();
    let mut t = Timer::new(&cfg);
    let next = t.skip(&cfg);
    assert_eq!(next, Phase::ShortBreak);
    assert_eq!(t.completed_focus_sessions(), 1);
    assert_eq!(t.remaining(), Duration::from_secs(5 * 60));
}

#[test]
fn break_returns_to_focus_and_auto_starts() {
    let mut cfg = TimerConfig::default();
    cfg.auto_start_focus = true;
    let mut t = Timer::new(&cfg);
    t.skip(&cfg);
    t.skip(&cfg);
    assert_eq!(t.phase(), Phase::Focus);
    assert_eq!(t.status(), Status::Running);
    assert_eq!(t.remaining(), Duration::from_secs(25 * 60));
}

#[test]
fn progress_and_mmss_are_correct() {
    let cfg = TimerConfig::default();
    let mut t = Timer::new(&cfg);
    t.start();
    t.tick(Duration::from_secs(25 * 60 / 2), &cfg);
    // The panel's progress: the share of the phase that has passed.
    let total = t.phase_duration(&cfg).as_secs_f64();
    let p = (1.0 - t.remaining().as_secs_f64() / total).clamp(0.0, 1.0);
    assert!((p - 0.5).abs() < 0.001);
    assert_eq!(t.remaining_mmss(), "12:30");
}

#[test]
fn snapshot_round_trips() {
    let cfg = TimerConfig::default();
    let mut t = Timer::new(&cfg);
    t.start();
    t.tick(Duration::from_secs(60), &cfg);
    let snap = t.snapshot().unwrap();
    let restored = Timer::restore_at(snap, &cfg, now());
    assert_eq!(restored.phase(), t.phase());
    assert_eq!(restored.status(), t.status());
    assert_eq!(restored.remaining(), t.remaining());
    assert_eq!(restored.completed_focus_sessions(), t.completed_focus_sessions());
}

#[test]
fn restore_running_subtracts_elapsed() {
    let cfg = TimerConfig::default();
    let mut t = Timer::new(&cfg);
    t.start();
    // Pretend we saved 90s ago with 25:00 remaining
    let snap = snapshot(Phase::Focus, Status::Running, 25 * 60, 0, 90);
    let restored = Timer::restore_at(snap, &cfg, now());
    // 90s elapsed, so ~23:30 left (allow 2s drift for test execution)
    let rem = restored.remaining().as_secs();
    assert!(rem >= 23 * 60 && rem <= 24 * 60, "remaining {rem}s not in 23..24m");
    assert_eq!(restored.phase(), Phase::Focus);
    assert_eq!(restored.status(), Status::Running);
}

#[test]
fn restore_paused_ignores_elapsed() {
    let cfg = TimerConfig::default();
    let snap = snapshot(Phase::Focus, Status::Paused, 10 * 60, 2, 3600);
    let restored = Timer::restore_at(snap, &cfg, now());
    assert_eq!(restored.remaining(), Duration::from_secs(10 * 60));
    assert_eq!(restored.status(), Status::Paused);
    assert_eq!(restored.completed_focus_sessions(), 2);
}

#[test]
fn restore_running_advances_when_elapsed_exceeds_remaining() {
    let mut cfg = TimerConfig::default();
    cfg.auto_start_breaks = true;
    // Saved with 30s remaining, 3600s ago -> should have advanced at least one focus
    let snap = snapshot(Phase::Focus, Status::Running, 30, 0, 3600);
    let restored = Timer::restore_at(snap, &cfg, now());
    // With default auto_start_focus=false, after Focus->ShortBreak->Focus we stop at Idle Focus.
    assert_eq!(restored.completed_focus_sessions(), 1);
    assert_eq!(restored.status(), Status::Idle);
    assert_eq!(restored.phase(), Phase::Focus);
}

// ---- further cases ----

#[test]
fn new_timer_is_idle_full_focus() {
    let cfg = TimerConfig::default();
    let t = Timer::new(&cfg);
    assert_eq!(t.phase(), Phase::Focus);
    assert_eq!(t.status(), Status::Idle);
    assert_eq!(t.completed_focus_sessions(), 0);
    assert_eq!(t.remaining(), Duration::from_secs(25 * 60));
    assert_eq!(t.remaining_mmss(), "25:00");
    assert_eq!(t.phase_duration(&cfg), Duration::from_secs(25 * 60));
}

#[test]
fn toggle_flips_between_running_and_paused() {
    let cfg = TimerConfig::default();
    let mut t = Timer::new(&cfg);
    t.toggle();
    assert_eq!(t.status(), Status::Running);
    t.toggle();
    assert_eq!(t.status(), Status::Paused);
    t.toggle();
    assert_eq!(t.status(), Status::Running);
    t.pause();
    assert_eq!(t.status(), Status::Paused);
    t.pause();
    assert_eq!(t.status(), Status::Paused);
    t.start();
    assert_eq!(t.status(), Status::Running);
}

#[test]
fn idle_tick_is_ignored() {
    let cfg = TimerConfig::default();
    let mut t = Timer::new(&cfg);
    assert_eq!(t.tick(Duration::from_secs(3600), &cfg), None);
    assert_eq!(t.remaining(), Duration::from_secs(25 * 60));
    assert_eq!(t.phase(), Phase::Focus);
}

#[test]
fn tick_keeps_sub_second_precision() {
    let cfg = TimerConfig::default();
    let mut t = Timer::new(&cfg);
    t.start();
    for _ in 0..3 {
        assert_eq!(t.tick(Duration::from_millis(250), &cfg), None);
    }
    assert_eq!(t.remaining(), Duration::from_secs(25 * 60) - Duration::from_millis(750));
    // Whole seconds only in the clock text.
    assert_eq!(t.remaining_mmss(), "24:59");
}

#[test]
fn break_ends_in_idle_focus_by_default() {
    let cfg = TimerConfig::default();
    let mut t = Timer::new(&cfg);
    t.start();
    assert_eq!(t.tick(Duration::from_secs(25 * 60), &cfg), Some(Phase::ShortBreak));
    assert_eq!(t.status(), Status::Running);
    assert_eq!(t.tick(Duration::from_secs(5 * 60 + 10), &cfg), Some(Phase::Focus));
    assert_eq!(t.status(), Status::Idle);
    assert_eq!(t.completed_focus_sessions(), 1);
}

#[test]
fn every_cycle_closes_with_a_long_break() {
    let mut cfg = TimerConfig::default();
    cfg.cycles_before_long_break = 2;
    let mut t = Timer::new(&cfg);
    let mut seen = Vec::new();
    for _ in 0..8 {
        seen.push(t.advance(&cfg));
    }
    assert_eq!(
        seen,
        vec![
            Phase::ShortBreak,
            Phase::Focus,
            Phase::LongBreak,
            Phase::Focus,
            Phase::ShortBreak,
            Phase::Focus,
            Phase::LongBreak,
            Phase::Focus
        ]
    );
    assert_eq!(t.completed_focus_sessions(), 4);
}

#[test]
fn zero_cycles_means_every_break_is_long() {
    let mut cfg = TimerConfig::default();
    cfg.cycles_before_long_break = 0;
    let mut t = Timer::new(&cfg);
    assert_eq!(t.skip(&cfg), Phase::LongBreak);
    assert_eq!(t.remaining(), Duration::from_secs(15 * 60));
}

#[test]
fn mmss_pads_and_grows() {
    let mut cfg = TimerConfig::default();
    cfg.focus_minutes = 125;
    let t = Timer::new(&cfg);
    assert_eq!(t.remaining_mmss(), "125:00");
    cfg.focus_minutes = 1;
    let mut t = Timer::new(&cfg);
    t.start();
    t.tick(Duration::from_secs(51), &cfg);
    assert_eq!(t.remaining_mmss(), "00:09");
}

#[test]
fn snapshot_keeps_whole_seconds() {
    let cfg = TimerConfig::default();
    let mut t = Timer::new(&cfg);
    t.start();
    t.tick(Duration::from_millis(1500), &cfg);
    let snap = t.snapshot().unwrap();
    assert_eq!(snap.version, 1);
    assert_eq!(snap.phase, Phase::Focus);
    assert_eq!(snap.status, Status::Running);
    assert_eq!(snap.remaining_secs, 25 * 60 - 2);
    assert_eq!(snap.completed_focus_sessions, 0);
}

#[test]
fn restore_after_counts_exact_seconds() {
    let cfg = TimerConfig::default();
    let t = Timer::restore_after(snapshot(Phase::Focus, Status::Running, 600, 0, 0), &cfg, 90);
    assert_eq!(t.remaining(), Duration::from_secs(510));
    assert_eq!(t.status(), Status::Running);
    // Negative time away counts as none.
    let t = Timer::restore_after(snapshot(Phase::Focus, Status::Running, 600, 0, 0), &cfg, -50);
    assert_eq!(t.remaining(), Duration::from_secs(600));
}

#[test]
fn restore_runs_through_several_phases() {
    let mut cfg = TimerConfig::default();
    cfg.auto_start_breaks = true;
    cfg.auto_start_focus = true;
    // 30 s of focus left, away for 30 s + 5 min break + 25 min focus + 100 s.
    let away = 30 + 5 * 60 + 25 * 60 + 100;
    let t = Timer::restore_after(snapshot(Phase::Focus, Status::Running, 30, 0, 0), &cfg, away);
    assert_eq!(t.phase(), Phase::ShortBreak);
    assert_eq!(t.completed_focus_sessions(), 2);
    assert_eq!(t.status(), Status::Running);
    assert_eq!(t.remaining(), Duration::from_secs(5 * 60 - 100));
}

#[test]
fn restore_stops_after_thirty_two_phases() {
    let mut cfg = TimerConfig::default();
    cfg.auto_start_breaks = true;
    cfg.auto_start_focus = true;
    cfg.focus_minutes = 1;
    cfg.short_break_minutes = 1;
    cfg.long_break_minutes = 1;
    // Every phase lasts a minute; a whole day away only moves on 32 times.
    let t = Timer::restore_after(snapshot(Phase::Focus, Status::Running, 60, 0, 0), &cfg, 86_400);
    assert_eq!(t.completed_focus_sessions(), 16);
    assert_eq!(t.phase(), Phase::Focus);
    assert_eq!(t.remaining(), Duration::from_secs(60));
}

#[test]
fn clones_are_equal() {
    let cfg = TimerConfig::default();
    let mut t = Timer::new(&cfg);
    t.start();
    t.tick(Duration::from_millis(1234), &cfg);
    let c = t.clone();
    assert_eq!(c.remaining(), t.remaining());
    assert_eq!((c.phase(), c.status(), c.completed_focus_sessions()), (t.phase(), t.status(), t.completed_focus_sessions()));
    let snap = t.snapshot().unwrap();
    let copy = snap.clone();
    assert_eq!(copy.saved_at.0, snap.saved_at.0);
    assert_eq!(copy.remaining_secs, snap.remaining_secs);
}

#[test]
fn snapshot_at_stamps_the_given_instant() {
    let cfg = TimerConfig::default();
    let mut t = Timer::new(&cfg);
    t.start();
    t.tick(Duration::from_millis(90_500), &cfg);
    let at = now();
    let snap = t.snapshot_at(at.clone());
    assert_eq!(snap.saved_at.0, at.0);
    assert_eq!(snap.version, 1);
    assert_eq!(snap.remaining_secs, 25 * 60 - 91);
    // Restored at the very instant it was saved, nothing has run down.
    let back = Timer::restore_at(snap, &cfg, at);
    assert_eq!(back.remaining(), Duration::from_secs(25 * 60 - 91));
    assert_eq!(back.status(), Status::Running);
}

#[test]
fn restore_reads_the_clock() {
    let cfg = TimerConfig::default();
    let snap = snapshot(Phase::ShortBreak, Status::Paused, 120, 5, 3600);
    let t = Timer::restore(snap, &cfg).unwrap();
    assert_eq!(t.phase(), Phase::ShortBreak);
    assert_eq!(t.status(), Status::Paused);
    assert_eq!(t.remaining(), Duration::from_secs(120));
}

#[test]
fn a_count_with_room_restores_after_any_time() {
    let cfg = TimerConfig { auto_start_focus: true, ..TimerConfig::default() };
    let snap = snapshot(Phase::Focus, Status::Running, 60, u32::MAX - 16, 0);
    let t = Timer::restore_after(snap, &cfg, i64::MAX);
    assert_eq!(t.completed_focus_sessions(), u32::MAX);
}
