//! The settings, the cadence and the line of the session heartbeat.
use thclaws_hud::session_hud::{
    format_session_heartbeat, HudMode, HudState, DEFAULT_INTERVAL_SECS, MIN_INTERVAL_SECS,
};
use thclaws_hud::time::{Clock, Duration, Instant};
use thclaws_hud::tool_display::SPINNER_INTERVAL_MILLIS;

fn state(hud: Option<&str>, interval: Option<&str>, is_tty: bool, now: Instant) -> HudState {
    HudState::from_env_inner(hud, interval, is_tty, now).0
}

fn warnings(hud: Option<&str>, interval: Option<&str>, is_tty: bool) -> Vec<String> {
    HudState::from_env_inner(hud, interval, is_tty, at(0)).1
}

fn at(secs: u64) -> Instant {
    Instant::at(Duration::from_secs(secs))
}

fn now() -> Instant {
    Clock::start().now()
}

fn spinner_interval() -> Duration {
    Duration::from_millis(SPINNER_INTERVAL_MILLIS)
}

// mode

#[test]
fn mode_off_explicit_disables_even_on_tty() {
    let s = state(Some("off"), None, true, now());
    assert!(!s.enabled());
}

#[test]
fn mode_heartbeat_explicit_enables_even_without_tty() {
    let s = state(Some("heartbeat"), None, false, now());
    assert!(s.enabled());
}

#[test]
fn mode_unset_defaults_on_with_tty() {
    let s = state(None, None, true, now());
    assert!(s.enabled());
}

#[test]
fn mode_unset_defaults_off_without_tty() {
    let s = state(None, None, false, now());
    assert!(!s.enabled());
}

#[test]
fn mode_is_case_insensitive_and_trimmed() {
    assert!(!state(Some("  OFF "), None, true, now()).enabled());
    assert!(state(Some("HeartBeat"), None, false, now()).enabled());
}

#[test]
fn mode_unrecognized_falls_back_to_tty_default() {
    assert!(state(Some("loud"), None, true, now()).enabled());
    assert!(!state(Some("loud"), None, false, now()).enabled());
}

#[test]
fn mode_empty_string_treated_as_unset() {
    assert!(state(Some(""), None, true, now()).enabled());
    assert!(!state(Some(""), None, false, now()).enabled());
}

#[test]
fn mode_blank_is_unset_and_silent() {
    assert_eq!(state(Some(" \t "), None, true, now()).mode, HudMode::Heartbeat);
    assert_eq!(state(Some(" \t "), None, false, now()).mode, HudMode::Off);
    assert!(warnings(Some(" \u{3000}\n"), Some("  "), true).is_empty());
}

#[test]
fn mode_warning_quotes_the_word_and_names_the_default() {
    assert_eq!(
        warnings(Some("  LOUD É "), None, true),
        vec![
            "[thclaws] THCLAWS_HUD='loud É' not recognized (use 'off' or 'heartbeat'); \
             defaulting to heartbeat"
                .to_string()
        ]
    );
    assert_eq!(
        warnings(Some("loud"), None, false),
        vec![
            "[thclaws] THCLAWS_HUD='loud' not recognized (use 'off' or 'heartbeat'); \
             defaulting to off"
                .to_string()
        ]
    );
    assert!(warnings(Some("OFF"), Some("12"), true).is_empty());
    assert!(warnings(Some("heartbeat"), None, true).is_empty());
}

// interval

#[test]
fn interval_default_when_unset() {
    let s = state(Some("heartbeat"), None, true, now());
    assert_eq!(s.interval, Duration::from_secs(DEFAULT_INTERVAL_SECS));
}

#[test]
fn interval_parsed_when_valid() {
    let s = state(Some("heartbeat"), Some("12"), true, now());
    assert_eq!(s.interval, Duration::from_secs(12));
}

#[test]
fn interval_clamped_to_minimum() {
    let s = state(Some("heartbeat"), Some("0"), true, now());
    assert_eq!(s.interval, Duration::from_secs(MIN_INTERVAL_SECS));
    let s2 = state(Some("heartbeat"), Some("1"), true, now());
    assert_eq!(s2.interval, Duration::from_secs(MIN_INTERVAL_SECS));
}

#[test]
fn interval_invalid_falls_back_to_default_not_silent() {
    let s = state(Some("heartbeat"), Some("soon"), true, now());
    assert_eq!(s.interval, Duration::from_secs(DEFAULT_INTERVAL_SECS));
    assert_eq!(
        warnings(Some("heartbeat"), Some(" soon "), true),
        vec![
            "[thclaws] THCLAWS_HUD_INTERVAL='soon' is not a positive integer; using default 30s"
                .to_string()
        ]
    );
}

#[test]
fn interval_reads_what_an_unsigned_number_is() {
    let cases = [
        "5", "4", "007", "+9", "+", "", "-1", "++3", "1_0", "1 0", "٣", "18446744073709551615",
        "18446744073709551616", "99999999999999999999999", "  60\n", "6.0", "+0", "0x10",
        "184467440737095516150", "1844674407370955161a", "29",
    ];
    for raw in cases {
        let expected = match raw.trim() {
            "" => 30,
            t => match t.parse::<u64>() {
                Ok(n) => n.max(5),
                Err(_) => 30,
            },
        };
        let s = state(None, Some(raw), true, at(0));
        assert_eq!(s.interval, Duration::from_secs(expected), "{raw:?}");
        let warned = !raw.trim().is_empty() && raw.trim().parse::<u64>().is_err();
        assert_eq!(warnings(None, Some(raw), true).len(), warned as usize, "{raw:?}");
    }
}

#[test]
fn both_settings_can_be_warned_about() {
    let w = warnings(Some("x"), Some("y"), true);
    assert_eq!(w.len(), 2);
    assert!(w[0].contains("THCLAWS_HUD='x'"));
    assert!(w[1].contains("THCLAWS_HUD_INTERVAL='y'"));
}

// cadence

#[test]
fn not_due_before_interval() {
    let now = at(100);
    let s = state(Some("heartbeat"), Some("30"), true, now);
    assert!(!s.due(now));
    assert!(!s.due(at(100 + 29)));
}

#[test]
fn due_at_and_after_interval() {
    let now = at(100);
    let s = state(Some("heartbeat"), Some("30"), true, now);
    assert!(s.due(at(100 + 30)));
    assert!(s.due(at(100 + 31)));
}

#[test]
fn never_due_when_off() {
    let now = at(100);
    let s = state(Some("off"), Some("5"), true, now);
    assert!(!s.due(at(100 + 3600)));
}

#[test]
fn mark_resets_cadence() {
    let now = at(100);
    let mut s = state(Some("heartbeat"), Some("30"), true, now);
    let t1 = at(100 + 30);
    assert!(s.due(t1));
    s.mark(t1);
    assert!(!s.due(at(130 + 29)));
    assert!(s.due(at(130 + 30)));
    assert_eq!(s.interval, Duration::from_secs(30));
    assert_eq!(s.mode, HudMode::Heartbeat);
}

#[test]
fn a_clock_behind_the_last_heartbeat_counts_as_no_time() {
    let s = state(Some("heartbeat"), Some("30"), true, at(100));
    assert!(!s.due(at(50)));
    assert_eq!(s.poll_delay(at(50)), Some(Duration::from_secs(30)));
}

#[test]
fn fresh_hud_state_per_turn_resets_cadence() {
    let t0 = 1000;
    let turn1 = state(Some("heartbeat"), Some("5"), true, at(t0));
    assert!(turn1.due(at(t0 + 5)));

    let t1 = t0 + 3;
    let turn2 = state(Some("heartbeat"), Some("5"), true, at(t1));
    assert!(!turn2.due(at(t1 + 4)));
    assert!(turn2.due(at(t1 + 5)));
}

// sleep

#[test]
fn poll_delay_none_when_off() {
    let now = at(100);
    let s = state(Some("off"), None, true, now);
    assert!(s.poll_delay(now).is_none());
}

#[test]
fn poll_delay_tracks_remaining_until_due() {
    let s = state(Some("heartbeat"), Some("30"), true, at(100));
    let d = s.poll_delay(at(100 + 10)).unwrap();
    assert!(d <= Duration::from_secs(20) && d >= spinner_interval());
    assert_eq!(d, Duration::from_secs(20));
    let d2 = s.poll_delay(at(100 + 60)).unwrap();
    assert_eq!(d2, spinner_interval());
}

#[test]
fn poll_delay_wakes_with_a_heartbeat_due() {
    let s = state(Some("heartbeat"), Some("30"), true, at(100));
    for waited in [0u64, 1, 29, 30, 31, 500] {
        let now = at(100 + waited);
        let sleep = s.poll_delay(now).unwrap();
        let wake = Instant::at(Duration::from_nanos(now.nanos + sleep.nanos));
        assert!(s.due(wake));
        assert!(sleep >= spinner_interval());
        assert!(sleep <= s.interval);
    }
    let almost = Instant::at(Duration::from_millis(129_950));
    assert_eq!(s.poll_delay(almost), Some(Duration::from_millis(100)));
}

// the line

#[test]
fn heartbeat_thinking_variant() {
    let s = format_session_heartbeat(Duration::from_secs(45), None);
    assert_eq!(s, "[⏱ 45s · thinking]");
}

#[test]
fn heartbeat_tool_variant() {
    let s = format_session_heartbeat(
        Duration::from_secs(60),
        Some(("Bash (migrate)", Duration::from_secs(30))),
    );
    assert_eq!(s, "[⏱ 1m 00s · tool: Bash (migrate) 30s]");
}

#[test]
fn heartbeat_is_a_permanent_line_no_cursor_control() {
    for s in [
        format_session_heartbeat(Duration::from_secs(45), None),
        format_session_heartbeat(
            Duration::from_secs(60),
            Some(("Bash (x)", Duration::from_secs(30))),
        ),
    ] {
        assert!(!s.contains('\r'), "heartbeat must not contain CR: {s:?}");
        assert!(
            !s.contains("\x1b[2K"),
            "heartbeat must not contain erase-line: {s:?}"
        );
        assert!(
            !s.contains('\n'),
            "heartbeat line adds its own newline via println: {s:?}"
        );
    }
}

#[test]
fn heartbeat_formatter_does_not_double_redact_or_introduce_secrets() {
    let already_redacted = "Bash (--api-key=<redacted>)";
    let s = format_session_heartbeat(
        Duration::from_secs(45),
        Some((already_redacted, Duration::from_secs(10))),
    );
    assert!(s.contains("<redacted>"), "redacted marker preserved: {s:?}");
    assert!(
        !s.contains("sk-"),
        "formatter must not introduce secrets: {s:?}"
    );
    assert_eq!(s, "[⏱ 45s · tool: Bash (--api-key=<redacted>) 10s]");
}

#[test]
fn heartbeat_writes_each_kind_of_time() {
    let s = format_session_heartbeat(
        Duration::from_millis(250),
        Some(("Glob (*.rs)", Duration::from_secs(3723))),
    );
    assert_eq!(s, "[⏱ 0.2s · tool: Glob (*.rs) 62m 03s]");
}
