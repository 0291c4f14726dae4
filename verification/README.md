# tomato

A pomodoro timer that refuses to leave: it pins itself to the desktop and
counts down while you work, with the task list beside it.

`src/` is the library, written in Verus: every function carries a contract,
and the rules it keeps are stated as proof functions.

- `timer` — phases, countdown, moving on, snapshots and restoring them after
  a restart.
- `todo` — the task list and the task focus sessions are credited to.
- `stats` — focus sessions and minutes per day, the last 60 days, and the
  week's totals.
- `config` — the timer and notification settings and their defaults.
- `ui` — what the panel shows and decides: stylesheets, the timer page's
  texts and beat, task badges, where the panel is anchored and what the
  compositor blurs.
- `text` — decimal numerals and string order; `clock` — the trusted boundary
  to `std::time::Duration` and `chrono`.

`app/` is the GTK program around it: windows and widgets, the settings file
(TOML), the data files (JSON), desktop notifications and the tray icon.
