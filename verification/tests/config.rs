use tomato::config::{
    default_always_on_top, default_anchor, default_margin, default_notifications_enabled, TimerConfig,
};

#[test]
fn defaults_match_the_documented_settings() {
    let t = TimerConfig::default();
    assert_eq!(t.focus_minutes, 25);
    assert_eq!(t.short_break_minutes, 5);
    assert_eq!(t.long_break_minutes, 15);
    assert_eq!(t.cycles_before_long_break, 4);
    assert!(t.auto_start_breaks);
    assert!(!t.auto_start_focus);
    assert_eq!(default_anchor(), "top-right");
    assert_eq!(default_margin(), 16);
    assert!(default_always_on_top());
    assert!(default_notifications_enabled());
}
