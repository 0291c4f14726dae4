//! The settings the library reads: the timer's lengths and automation, and
//! whether notifications are wanted, with the defaults that a missing
//! setting takes.

use vstd::prelude::*;

verus! {

/// Length of a focus session, in minutes, when none is set.
pub fn default_focus_minutes() -> (r: u32)
    ensures
        r == 25,
{
    25
}

/// Length of a short break, in minutes, when none is set.
pub fn default_short_break_minutes() -> (r: u32)
    ensures
        r == 5,
{
    5
}

/// Length of a long break, in minutes, when none is set.
pub fn default_long_break_minutes() -> (r: u32)
    ensures
        r == 15,
{
    15
}

/// Focus sessions per cycle (the last one is followed by a long break), when
/// none is set.
pub fn default_cycles_before_long_break() -> (r: u32)
    ensures
        r == 4,
{
    4
}

/// Whether breaks start by themselves, when not set.
pub fn default_auto_start_breaks() -> (r: bool)
    ensures
        r,
{
    true
}

/// Whether focus sessions start by themselves, when not set.
pub fn default_auto_start_focus() -> (r: bool)
    ensures
        !r,
{
    false
}

/// Whether desktop notifications are sent, when not set.
pub fn default_notifications_enabled() -> (r: bool)
    ensures
        r,
{
    true
}

/// The screen anchor of the panel, when none is set.
pub fn default_anchor() -> (r: String)
    ensures
        r@ == "top-right"@,
{
    "top-right".to_owned()
}

/// The panel's distance from the anchored screen edges, in pixels, when none
/// is set.
pub fn default_margin() -> (r: i32)
    ensures
        r == 16,
{
    16
}

/// Whether the panel sits above other windows, when not set.
pub fn default_always_on_top() -> (r: bool)
    ensures
        r,
{
    true
}

/// How long each phase lasts and what starts by itself.
#[derive(Debug, Clone, Copy, PartialEq, Eq, Structural)]
pub struct TimerConfig {
    pub focus_minutes: u32,
    pub short_break_minutes: u32,
    pub long_break_minutes: u32,
    pub cycles_before_long_break: u32,
    pub auto_start_breaks: bool,
    pub auto_start_focus: bool,
}

/// The timer settings that hold when nothing is configured.
pub open spec fn default_timer_config() -> TimerConfig {
    TimerConfig {
        focus_minutes: 25,
        short_break_minutes: 5,
        long_break_minutes: 15,
        cycles_before_long_break: 4,
        auto_start_breaks: true,
        auto_start_focus: false,
    }
}

impl Default for TimerConfig {
    fn default() -> (r: Self)
        ensures
            r == default_timer_config(),
    {
        TimerConfig {
            focus_minutes: default_focus_minutes(),
            short_break_minutes: default_short_break_minutes(),
            long_break_minutes: default_long_break_minutes(),
            cycles_before_long_break: default_cycles_before_long_break(),
            auto_start_breaks: default_auto_start_breaks(),
            auto_start_focus: default_auto_start_focus(),
        }
    }
}

/// Whether the desktop is told when a phase ends.
#[derive(Debug, Clone, Copy, PartialEq, Eq, Structural)]
pub struct NotificationConfig {
    pub enabled: bool,
}

impl Default for NotificationConfig {
    fn default() -> (r: Self)
        ensures
            r.enabled,
    {
        NotificationConfig { enabled: default_notifications_enabled() }
    }
}

} // verus!
