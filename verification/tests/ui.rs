use std::time::Duration;

use tomato::config::{NotificationConfig, TimerConfig};
use tomato::timer::{Phase, Status, Timer};
use tomato::todo::TodoStore;
use tomato::ui::css::{current_sheet, dark_sheet, dark_sheet_with_opacity_hundredths, light_sheet};
use tomato::ui::face::{
    credit_missed_sessions, cycle_label, save_due, missed_session_notice, on_tick, phase_css_class, phase_label,
    phase_notice, ring_css_class, session_dots, start_button_label, status_label,
};
use tomato::ui::layout::{
    anchor_at, anchor_index, blur_rects, blur_rects_fit, drag_sign_x, drag_sign_y, h_edge, parse_corner, rect_fits, rounded_rects, v_edge,
    Corner, Rect, ScreenEdge,
};
use tomato::ui::tasks::{count_footer, estimate_down, estimate_up, pomo_badge, space_char, task_title};

#[test]
fn sheets_carry_palette_and_opacity() {
    let dark = dark_sheet();
    assert!(dark.starts_with("/* Tomato — dark theme */\n"));
    assert!(dark.contains("@define-color tm_bg #0e0f14;"));
    assert!(dark.contains("background-color: alpha(@tm_bg, 0.88);"));
    assert!(!dark.contains("__OPACITY__"));
    assert_eq!(dark.matches("alpha(@tm_bg, 0.88)").count(), 2);
    let light = light_sheet();
    assert!(light.starts_with("/* Tomato — light theme */\n"));
    assert!(light.contains("@define-color tm_bg #f3f4f7;"));
    assert!(light.contains("alpha(@tm_bg, 0.88)"));
}

#[test]
fn sheet_opacity_is_held_between_bounds() {
    assert!(dark_sheet_with_opacity_hundredths(5).contains("alpha(@tm_bg, 0.30)"));
    assert!(dark_sheet_with_opacity_hundredths(100).contains("alpha(@tm_bg, 1.00)"));
    assert!(dark_sheet_with_opacity_hundredths(250).contains("alpha(@tm_bg, 1.00)"));
    assert!(dark_sheet_with_opacity_hundredths(45).contains("alpha(@tm_bg, 0.45)"));
    assert_eq!(current_sheet(true, 88), dark_sheet());
    assert_eq!(current_sheet(false, 88), light_sheet());
}

#[test]
fn anchors_name_corners() {
    assert_eq!(parse_corner("top-left"), Corner::TopLeft);
    assert_eq!(parse_corner("top-right"), Corner::TopRight);
    assert_eq!(parse_corner("bottom-left"), Corner::BottomLeft);
    assert_eq!(parse_corner("bottom-right"), Corner::BottomRight);
    assert_eq!(parse_corner("center"), Corner::Center);
    assert_eq!(parse_corner("middle"), Corner::TopRight);
    assert_eq!(parse_corner(""), Corner::TopRight);
    assert_eq!(Corner::default(), Corner::Center);
}

#[test]
fn corners_anchor_and_drag() {
    assert_eq!(h_edge(Corner::BottomLeft), Some(ScreenEdge::Left));
    assert_eq!(v_edge(Corner::BottomLeft), Some(ScreenEdge::Bottom));
    assert_eq!(h_edge(Corner::TopRight), Some(ScreenEdge::Right));
    assert_eq!(v_edge(Corner::TopRight), Some(ScreenEdge::Top));
    assert_eq!(h_edge(Corner::Center), None);
    assert_eq!(v_edge(Corner::Center), None);
    assert_eq!((drag_sign_x(Corner::TopLeft), drag_sign_y(Corner::TopLeft)), (1, 1));
    assert_eq!((drag_sign_x(Corner::BottomRight), drag_sign_y(Corner::BottomRight)), (-1, -1));
    assert_eq!((drag_sign_x(Corner::Center), drag_sign_y(Corner::Center)), (0, 0));
}

#[test]
fn settings_list_anchors_in_order() {
    assert_eq!(anchor_index("top-right"), 0);
    assert_eq!(anchor_index("bottom-left"), 3);
    assert_eq!(anchor_index("center"), 4);
    assert_eq!(anchor_index("elsewhere"), 0);
    assert_eq!(anchor_at(2), Some("bottom-right"));
    assert_eq!(anchor_at(5), None);
    for i in 0..5 {
        assert_eq!(anchor_index(anchor_at(i).unwrap()), i);
    }
}

#[test]
fn rounded_rects_leave_corners_out() {
    let r = |x, y, width, height| Rect { x, y, width, height };
    assert_eq!(rounded_rects(10, 20, 100, 40, 8), vec![r(18, 20, 84, 8), r(18, 52, 84, 8), r(10, 28, 100, 24)]);
    // The radius is held to half the shorter side, and not below zero.
    assert_eq!(rounded_rects(0, 0, 40, 10, 99), vec![r(5, 0, 30, 5), r(5, 5, 30, 5), r(0, 5, 40, 0)]);
    assert_eq!(rounded_rects(0, 0, 40, 10, -3), vec![r(0, 0, 40, 0), r(0, 10, 40, 0), r(0, 0, 40, 10)]);
    // A square with the full radius keeps only the middle band.
    assert_eq!(rounded_rects(0, 0, 10, 10, 5), vec![r(0, 5, 10, 0)]);
    assert!(rounded_rects(0, 0, 0, 10, 2).is_empty());
    assert!(rounded_rects(0, 0, 10, -1, 2).is_empty());
}

#[test]
fn blur_covers_pill_and_open_dropdown() {
    let pill = Rect { x: 100, y: 0, width: 80, height: 38 };
    let closed = Rect { x: 0, y: 44, width: 280, height: 0 };
    let pill_only = blur_rects(pill, closed);
    assert_eq!(pill_only, rounded_rects(100, 0, 80, 38, 19));
    let open = Rect { x: 0, y: 44, width: 280, height: 460 };
    let both = blur_rects(pill, open);
    assert_eq!(both.len(), 6);
    assert_eq!(both[3..].to_vec(), rounded_rects(0, 44, 280, 460, 22));
}

#[test]
fn timer_page_texts() {
    assert_eq!(phase_label(Phase::Focus), "FOCUS");
    assert_eq!(phase_label(Phase::LongBreak), "LONG BREAK");
    assert_eq!(phase_css_class(Phase::ShortBreak), "tm-phase-short");
    assert_eq!(ring_css_class(Phase::LongBreak), "tm-ring-long");
    assert_eq!(status_label(Status::Idle), "READY");
    assert_eq!(status_label(Status::Paused), "PAUSED");
    assert_eq!(start_button_label(Phase::Focus, Status::Running), "Pause");
    assert_eq!(start_button_label(Phase::Focus, Status::Idle), "Start Focus");
    assert_eq!(start_button_label(Phase::ShortBreak, Status::Paused), "Start Break");
}

#[test]
fn session_dots_and_counter() {
    assert_eq!(session_dots(6, 4), vec![true, true, false, false]);
    assert_eq!(session_dots(4, 4), vec![false, false, false, false]);
    assert_eq!(session_dots(3, 0), vec![false]);
    assert_eq!(session_dots(11, 12).len(), 8);
    assert_eq!(session_dots(11, 12), vec![true; 8]);
    assert_eq!(cycle_label(0, 4), "0/4");
    assert_eq!(cycle_label(6, 4), "2/4");
    assert_eq!(cycle_label(6, 0), "0/1");
}

#[test]
fn notices_follow_the_phase() {
    assert_eq!(phase_notice(Phase::Focus), ("Break over", "Back to work — stay focused."));
    assert_eq!(phase_notice(Phase::ShortBreak), ("Focus complete", "Nice work. Take a short break."));
    assert_eq!(phase_notice(Phase::LongBreak), ("Session finished", "Great job — enjoy a long break."));
    assert_eq!(missed_session_notice(true, Phase::Focus, Phase::LongBreak), Some(phase_notice(Phase::LongBreak)));
    assert_eq!(missed_session_notice(true, Phase::Focus, Phase::ShortBreak), Some(phase_notice(Phase::ShortBreak)));
    assert_eq!(missed_session_notice(false, Phase::Focus, Phase::ShortBreak), None);
    assert_eq!(missed_session_notice(true, Phase::ShortBreak, Phase::LongBreak), None);
    assert_eq!(missed_session_notice(true, Phase::Focus, Phase::Focus), None);
    assert!(NotificationConfig::default().enabled);
}

#[test]
fn missed_sessions_credit_the_focus_task() {
    let mut store = TodoStore::default();
    let id = store.add("deep work".to_string(), 1, 0).unwrap();
    store.set_active(Some(id));
    assert_eq!(credit_missed_sessions(&mut store, 2, 5), 3);
    assert_eq!(store.items[0].pomodoros_done, 3);
    assert_eq!(credit_missed_sessions(&mut store, 5, 5), 0);
    assert_eq!(credit_missed_sessions(&mut store, 6, 5), 0);
    assert_eq!(store.items[0].pomodoros_done, 3);
}

#[test]
fn a_beat_counts_down_and_credits_finished_focus() {
    let mut cfg = TimerConfig::default();
    cfg.focus_minutes = 1;
    let mut timer = Timer::new(&cfg);
    let mut store = TodoStore::default();
    let id = store.add("deep work".to_string(), 1, 0).unwrap();
    store.set_active(Some(id));

    let out = on_tick(&mut timer, &mut store, &cfg, true);
    assert!(!out.ran);
    assert_eq!(timer.remaining(), Duration::from_secs(60));

    timer.start();
    for _ in 0..239 {
        let out = on_tick(&mut timer, &mut store, &cfg, true);
        assert!(out.ran && out.phase.is_none() && !out.credited && out.notice.is_none());
    }
    assert_eq!(timer.remaining(), Duration::from_millis(250));
    let out = on_tick(&mut timer, &mut store, &cfg, true);
    assert_eq!(out.phase, Some(Phase::ShortBreak));
    assert!(out.credited);
    assert_eq!(out.notice, Some(phase_notice(Phase::ShortBreak)));
    assert_eq!(store.items[0].pomodoros_done, 1);

    // The break ending credits nothing, and a muted panel sends no notice.
    cfg.short_break_minutes = 0;
    let mut brk = Timer::new(&cfg);
    brk.skip(&cfg);
    brk.start();
    let out = on_tick(&mut brk, &mut store, &cfg, false);
    assert_eq!(out.phase, Some(Phase::Focus));
    assert!(!out.credited);
    assert_eq!(out.notice, None);
    assert_eq!(store.items[0].pomodoros_done, 1);
}

#[test]
fn task_badges_and_estimates() {
    assert_eq!(pomo_badge(0, 0), None);
    assert_eq!(pomo_badge(2, 0), Some("🍅 2".to_string()));
    assert_eq!(pomo_badge(2, 5), Some("🍅 2/5".to_string()));
    assert_eq!(pomo_badge(0, 3), Some("🍅 0/3".to_string()));
    assert_eq!(estimate_up(0), 1);
    assert_eq!(estimate_up(19), 20);
    assert_eq!(estimate_up(20), 20);
    assert_eq!(estimate_up(35), 20);
    assert_eq!(estimate_down(0), 0);
    assert_eq!(estimate_down(7), 6);
}

#[test]
fn footer_counts_active_and_done() {
    assert_eq!(count_footer(2, 0), "2 active · 0 done");
    assert_eq!(count_footer(0, 13), "0 active · 13 done");
}

#[test]
fn covers_fit_where_their_sums_do() {
    assert!(rect_fits(10, 20, 100, 40, 8));
    assert!(rect_fits(0, 0, 0, 10, 2));
    // Only the strips' left edge and the bottom edge are summed.
    assert!(rect_fits(i32::MAX - 8, 0, 100, 40, 8));
    assert!(!rect_fits(i32::MAX - 7, 0, 100, 40, 8));
    assert!(!rect_fits(0, i32::MAX - 30, 100, 40, 8));
    // A square with the full radius has no strips.
    assert!(rect_fits(i32::MAX, 0, 10, 10, 5));
    let pill = Rect { x: 100, y: 0, width: 80, height: 38 };
    assert!(blur_rects_fit(pill, Rect { x: 0, y: 44, width: 280, height: 460 }));
    assert!(blur_rects_fit(pill, Rect { x: i32::MAX, y: i32::MAX, width: 0, height: 0 }));
    assert!(!blur_rects_fit(pill, Rect { x: 0, y: i32::MAX - 10, width: 280, height: 460 }));
}

#[test]
fn typed_titles_are_trimmed_and_blank_ones_refused() {
    assert_eq!(task_title("  write report \n"), Some("write report".to_string()));
    assert_eq!(task_title("plain"), Some("plain".to_string()));
    assert_eq!(task_title("\u{3000}mid  dle\u{a0}"), Some("mid  dle".to_string()));
    assert_eq!(task_title("   \t\n"), None);
    assert_eq!(task_title(""), None);
    for c in [' ', '\t', '\n', '\u{85}', '\u{2003}', '\u{3000}', 'a', '-', '\u{200b}'] {
        assert_eq!(space_char(c), c.is_whitespace(), "{c:?}");
    }
}

#[test]
fn the_running_timer_is_saved_once_a_second() {
    let last = std::time::Instant::now();
    assert!(!save_due(&last, &last));
    assert!(!save_due(&last, &(last + Duration::from_millis(999))));
    assert!(save_due(&last, &(last + Duration::from_secs(1))));
    assert!(save_due(&last, &(last + Duration::from_secs(5))));
    // A clock reading before the last save counts as no time passed.
    assert!(!save_due(&(last + Duration::from_secs(5)), &last));
}
