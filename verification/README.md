# thclaws_hud

Liveness displays for an interactive agent session, verified with Verus.

- `src/session_hud.rs`: the heartbeat line that a turn prints now and then, its
  settings and its cadence.
- `src/active_tools.rs`: tool calls in progress and when their heartbeats are due.
- `src/tool_display.rs`: labels of tool calls, sanitized previews, times in text.
- `src/redaction.rs`: redaction of secrets in text and in JSON values.
- `src/tmux_hud.rs`: the commands for a line on the border of the tmux pane.
- `src/json.rs`, `src/text.rs`, `src/time.rs`: JSON values, characters and decimal
  numbers, spans of time and the clock.

What each function does is stated in its `ensures`; what holds of several functions
together is stated in the proof functions whose names begin with `law_`.

`app/` connects the library to the environment, to tmux and to `serde_json`.

Settings of the heartbeat line:

- `THCLAWS_HUD`: `off` or `heartbeat`. Without it the line is on at a terminal only.
- `THCLAWS_HUD_INTERVAL`: seconds between two lines, at least 5; 30 without it.
