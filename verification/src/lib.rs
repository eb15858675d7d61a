//! Liveness displays for an interactive agent session.
//!
//! A session shows that it is alive in three ways: a heartbeat line that is printed
//! now and then during a turn ([`session_hud`]), a heartbeat text for each tool call
//! that runs long ([`active_tools`], [`tool_display`]), and a line on the border of
//! the tmux pane ([`tmux_hud`]). What is shown of a tool's input has its secrets
//! redacted ([`redaction`]).
//!
//! The library decides and formats. It prints nothing, runs nothing and reads no
//! environment; the one thing that it reads is the monotonic clock ([`time`]).
pub mod active_tools;
pub mod json;
pub mod redaction;
pub mod session_hud;
pub mod text;
pub mod time;
pub mod tmux_hud;
pub mod tool_display;
