//! The heartbeat line of an interactive session.
//!
//! While a turn runs, the session now and then prints a line that shows that it
//! is alive and how long the turn has run. The line is ordinary output, without
//! cursor control, and so can never share a row with the spinner, which is
//! redrawn in place.
use vstd::prelude::*;
use vstd::string::*;

use crate::json::JsonView;
use crate::text::{ascii_lower, control_free, decimal, law_ascii_lower, law_decimal_reads_back, parse_u64, parsed_u64, push_decimal, str_eq, to_ascii_lowercase, trim, trimmed};
use crate::time::{Duration, Instant, NANOS_PER_MILLI, NANOS_PER_SEC, minus_to_zero};
use crate::tool_display::{duration_text, format_duration_with, label, law_duration_reads_back, law_duration_text, law_label, lemma_control_free_add, tells_time, SPINNER_INTERVAL_MILLIS};

verus! {

/// Seconds between heartbeats where nothing else is set.
pub const DEFAULT_INTERVAL_SECS: u64 = 30;

/// Fewest seconds between heartbeats.
pub const MIN_INTERVAL_SECS: u64 = 5;

/// Whether the heartbeat is on.
#[derive(Debug, Clone, Copy, PartialEq, Eq, Structural)]
pub enum HudMode {
    Off,
    Heartbeat,
}

/// When heartbeats are printed in one turn.
#[derive(Debug, Clone, Copy)]
pub struct HudState {
    pub mode: HudMode,
    pub interval: Duration,
    /// When the last heartbeat was printed, or the start of the turn.
    pub last_emit: Instant,
}

// ── settings ───────────────────────────────────────────────────────

/// The characters of a setting that is given.
pub open spec fn given(setting: Option<&str>) -> Option<Seq<char>> {
    match setting {
        Some(s) => Some(s@),
        None => None,
    }
}

/// The mode where none is set: on at a terminal.
pub open spec fn default_mode(is_tty: bool) -> HudMode {
    if is_tty {
        HudMode::Heartbeat
    } else {
        HudMode::Off
    }
}

/// The word that a mode setting holds, without regard to case and to white
/// space around it.
pub open spec fn mode_word(hud: Seq<char>) -> Seq<char> {
    ascii_lower(trimmed(hud))
}

/// The mode that the setting chooses.
pub open spec fn chosen_mode(hud: Option<Seq<char>>, is_tty: bool) -> HudMode {
    match hud {
        Some(s) => if mode_word(s) == "off"@ {
            HudMode::Off
        } else if mode_word(s) == "heartbeat"@ {
            HudMode::Heartbeat
        } else {
            default_mode(is_tty)
        },
        None => default_mode(is_tty),
    }
}

/// The warning about a mode setting that is not understood.
pub open spec fn mode_warning(hud: Option<Seq<char>>, is_tty: bool) -> Option<Seq<char>> {
    match hud {
        Some(s) => {
            let word = mode_word(s);
            if word == "off"@ || word == "heartbeat"@ || word.len() == 0 {
                None
            } else {
                Some(
                    "[thclaws] THCLAWS_HUD='"@ + word
                        + "' not recognized (use 'off' or 'heartbeat'); defaulting to "@ + (
                    if is_tty {
                        "heartbeat"@
                    } else {
                        "off"@
                    }),
                )
            }
        },
        None => None,
    }
}

/// The number of seconds between heartbeats that the setting chooses.
pub open spec fn chosen_interval(interval: Option<Seq<char>>) -> nat {
    match interval {
        Some(s) => match parsed_u64(trimmed(s)) {
            Some(n) => if n < MIN_INTERVAL_SECS {
                MIN_INTERVAL_SECS as nat
            } else {
                n
            },
            None => DEFAULT_INTERVAL_SECS as nat,
        },
        None => DEFAULT_INTERVAL_SECS as nat,
    }
}

/// The warning about an interval setting that is no number.
pub open spec fn interval_warning(interval: Option<Seq<char>>) -> Option<Seq<char>> {
    match interval {
        Some(s) => if trimmed(s).len() == 0 || parsed_u64(trimmed(s)) is Some {
            None
        } else {
            Some(
                "[thclaws] THCLAWS_HUD_INTERVAL='"@ + trimmed(s)
                    + "' is not a positive integer; using default "@ + decimal(
                    DEFAULT_INTERVAL_SECS as nat,
                ) + "s"@,
            )
        },
        None => None,
    }
}

/// The warnings to print about the settings, in order.
pub open spec fn setting_warnings(
    hud: Option<Seq<char>>,
    interval: Option<Seq<char>>,
    is_tty: bool,
) -> Seq<Seq<char>> {
    let first = match mode_warning(hud, is_tty) {
        Some(w) => seq![w],
        None => Seq::empty(),
    };
    match interval_warning(interval) {
        Some(w) => first.push(w),
        None => first,
    }
}

/// Choose the mode, with a warning where the setting is not understood.
pub fn read_mode(hud: Option<&str>, is_tty: bool) -> (r: (HudMode, Option<String>))
    ensures
        r.0 == chosen_mode(given(hud), is_tty),
        match r.1 {
            Some(w) => mode_warning(given(hud), is_tty) == Some(w@),
            None => mode_warning(given(hud), is_tty) is None,
        },
{
    let fallback = if is_tty {
        HudMode::Heartbeat
    } else {
        HudMode::Off
    };
    match hud {
        None => (fallback, None),
        Some(s) => {
            let word = to_ascii_lowercase(trim(s).as_str());
            if str_eq(word.as_str(), "off") {
                (HudMode::Off, None)
            } else if str_eq(word.as_str(), "heartbeat") {
                (HudMode::Heartbeat, None)
            } else if word.as_str().is_empty() {
                (fallback, None)
            } else {
                let mut w = String::new();
                w.append("[thclaws] THCLAWS_HUD='");
                w.append(word.as_str());
                w.append("' not recognized (use 'off' or 'heartbeat'); defaulting to ");
                w.append(
                    if is_tty {
                        "heartbeat"
                    } else {
                        "off"
                    },
                );
                assert(w@ == mode_warning(given(hud), is_tty)->0);
                (fallback, Some(w))
            }
        },
    }
}

/// Choose the seconds between heartbeats, with a warning where the setting is no
/// number.
pub fn read_interval(interval: Option<&str>) -> (r: (u64, Option<String>))
    ensures
        r.0 == chosen_interval(given(interval)),
        match r.1 {
            Some(w) => interval_warning(given(interval)) == Some(w@),
            None => interval_warning(given(interval)) is None,
        },
{
    match interval {
        None => (DEFAULT_INTERVAL_SECS, None),
        Some(s) => {
            let raw = trim(s);
            match parse_u64(raw.as_str()) {
                Some(n) => if n < MIN_INTERVAL_SECS {
                    (MIN_INTERVAL_SECS, None)
                } else {
                    (n, None)
                },
                None => if raw.as_str().is_empty() {
                    (DEFAULT_INTERVAL_SECS, None)
                } else {
                    let mut w = String::new();
                    w.append("[thclaws] THCLAWS_HUD_INTERVAL='");
                    w.append(raw.as_str());
                    w.append("' is not a positive integer; using default ");
                    push_decimal(&mut w, DEFAULT_INTERVAL_SECS);
                    w.append("s");
                    assert(w@ == interval_warning(given(interval))->0);
                    (DEFAULT_INTERVAL_SECS, Some(w))
                },
            }
        },
    }
}

// ── cadence ────────────────────────────────────────────────────────

impl HudState {
    /// The interval is no shorter than the shortest allowed.
    pub open spec fn well_formed(self) -> bool {
        self.interval@ >= MIN_INTERVAL_SECS * NANOS_PER_SEC
    }

    /// Whether the heartbeat is on.
    pub open spec fn is_on(self) -> bool {
        self.mode == HudMode::Heartbeat
    }

    /// The time since the last heartbeat, at `now`.
    pub open spec fn quiet_for(self, now: nat) -> nat {
        minus_to_zero(now, self.last_emit@)
    }

    /// Whether a heartbeat is due at `now`.
    pub open spec fn is_due(self, now: nat) -> bool {
        self.is_on() && self.quiet_for(now) >= self.interval@
    }

    /// How long the session may sleep from `now` on: until the next heartbeat,
    /// but no shorter than a frame of the spinner.
    pub open spec fn longest_sleep(self, now: nat) -> nat {
        let left = minus_to_zero(self.interval@, self.quiet_for(now));
        let frame = (SPINNER_INTERVAL_MILLIS * NANOS_PER_MILLI) as nat;
        if left < frame {
            frame
        } else {
            left
        }
    }

    /// The state at the start of a turn, from the two settings where they are
    /// given, and the warnings to print about them.
    ///
    /// `hud` is `off` or `heartbeat`; without it the heartbeat is on at a
    /// terminal only. `interval` is the number of seconds between heartbeats, of
    /// which there are at least [`MIN_INTERVAL_SECS`].
    pub fn from_env_inner(
        hud: Option<&str>,
        interval: Option<&str>,
        is_tty: bool,
        now: Instant,
    ) -> (r: (Self, Vec<String>))
        ensures
            r.0.well_formed(),
            r.0.mode == chosen_mode(given(hud), is_tty),
            r.0.interval@ == chosen_interval(given(interval)) * NANOS_PER_SEC,
            r.0.last_emit == now,
            r.1@.map_values(|w: String| w@) == setting_warnings(
                given(hud),
                given(interval),
                is_tty,
            ),
    {
        let (mode, mode_said) = read_mode(hud, is_tty);
        let (secs, interval_said) = read_interval(interval);
        let mut warnings: Vec<String> = Vec::new();
        if let Some(w) = mode_said {
            warnings.push(w);
        }
        if let Some(w) = interval_said {
            warnings.push(w);
        }
        assert(warnings@.map_values(|w: String| w@) =~= setting_warnings(
            given(hud),
            given(interval),
            is_tty,
        ));
        (HudState { mode, interval: Duration::from_secs(secs), last_emit: now }, warnings)
    }

    /// Whether the heartbeat is on.
    pub fn enabled(&self) -> (r: bool)
        ensures
            r == self.is_on(),
    {
        self.mode == HudMode::Heartbeat
    }

    /// Whether a heartbeat is due at `now`.
    pub fn due(&self, now: Instant) -> (r: bool)
        ensures
            r == self.is_due(now@),
    {
        self.enabled() && now.duration_since(self.last_emit).nanos >= self.interval.nanos
    }

    /// Note that a heartbeat was printed at `now`.
    pub fn mark(&mut self, now: Instant)
        ensures
            final(self).last_emit == now,
            final(self).mode == old(self).mode,
            final(self).interval == old(self).interval,
            old(self).well_formed() ==> final(self).well_formed(),
    {
        self.last_emit = now;
    }

    /// How long the session may sleep from `now` on before it has to ask again
    /// whether a heartbeat is due. Nothing where the heartbeat is off.
    pub fn poll_delay(&self, now: Instant) -> (r: Option<Duration>)
        ensures
            match r {
                Some(d) => self.is_on() && d@ == self.longest_sleep(now@),
                None => !self.is_on(),
            },
    {
        if !self.enabled() {
            return None;
        }
        let left = self.interval.saturating_sub(now.duration_since(self.last_emit));
        let frame = Duration::from_millis(SPINNER_INTERVAL_MILLIS);
        if left.nanos < frame.nanos {
            Some(frame)
        } else {
            Some(left)
        }
    }
}

// ── the line ───────────────────────────────────────────────────────

/// The heartbeat line for a turn that has run for `elapsed` nanoseconds: what the
/// session is doing is thinking, or the labelled tool call, with the time that
/// it has run.
pub open spec fn heartbeat_line(elapsed: nat, active: Option<(Seq<char>, nat)>) -> Seq<char> {
    match active {
        Some((label, tool_elapsed)) => "[⏱ "@ + duration_text(elapsed, " "@) + " · tool: "@ + label
            + " "@ + duration_text(tool_elapsed, " "@) + "]"@,
        None => "[⏱ "@ + duration_text(elapsed, " "@) + " · thinking]"@,
    }
}

/// The call that a line is about, with its label's characters and its time in
/// nanoseconds.
pub open spec fn active_view(active: Option<(&str, Duration)>) -> Option<(Seq<char>, nat)> {
    match active {
        Some((label, tool_elapsed)) => Some((label@, tool_elapsed@)),
        None => None,
    }
}

/// Write the heartbeat line of the session, like
/// `[⏱ 1m 00s · tool: Bash (migrate) 30s]` or `[⏱ 45s · thinking]`.
///
/// The label is shown as it is given.
pub fn format_session_heartbeat(elapsed: Duration, active: Option<(&str, Duration)>) -> (r: String)
    ensures
        r@ == heartbeat_line(elapsed@, active_view(active)),
        match active {
            Some((label, tool_elapsed)) => r@ == heartbeat_line(
                elapsed@,
                Some((label@, tool_elapsed@)),
            ),
            None => r@ == heartbeat_line(elapsed@, None),
        },
{
    let mut out = String::new();
    out.append("[⏱ ");
    out.append(format_duration_with(elapsed, " ").as_str());
    match active {
        Some((label, tool_elapsed)) => {
            out.append(" · tool: ");
            out.append(label);
            out.append(" ");
            out.append(format_duration_with(tool_elapsed, " ").as_str());
            out.append("]");
        },
        None => {
            out.append(" · thinking]");
        },
    }
    assert(out@ == heartbeat_line(elapsed@, active_view(active)));
    out
}

// ── laws ───────────────────────────────────────────────────────────

/// A mode that is set holds with and without a terminal, and nothing is said
/// about it.
pub proof fn law_explicit_mode_wins(hud: Seq<char>, is_tty: bool)
    ensures
        mode_word(hud) == "off"@ ==> chosen_mode(Some(hud), is_tty) == HudMode::Off,
        mode_word(hud) == "heartbeat"@ ==> chosen_mode(Some(hud), is_tty) == HudMode::Heartbeat,
        mode_word(hud) == "off"@ || mode_word(hud) == "heartbeat"@ ==> mode_warning(
            Some(hud),
            is_tty,
        ) is None,
{
    reveal_strlit("off");
    reveal_strlit("heartbeat");
    assert("off"@.len() != "heartbeat"@.len());
}

/// Where no mode is set, or a blank one, the heartbeat is on exactly at a
/// terminal, and nothing is said.
pub proof fn law_unset_mode_follows_terminal(hud: Option<Seq<char>>, is_tty: bool)
    requires
        hud matches Some(s) ==> mode_word(s).len() == 0,
    ensures
        chosen_mode(hud, is_tty) == HudMode::Heartbeat <==> is_tty,
        mode_warning(hud, is_tty) is None,
{
    reveal_strlit("off");
    reveal_strlit("heartbeat");
}

/// Where nothing is said about the settings, each of them was left blank or has
/// been followed.
pub proof fn law_no_silent_fallback(
    hud: Option<Seq<char>>,
    interval: Option<Seq<char>>,
    is_tty: bool,
)
    requires
        setting_warnings(hud, interval, is_tty).len() == 0,
    ensures
        hud matches Some(s) ==> mode_word(s).len() == 0 || mode_word(s) == (
        match chosen_mode(hud, is_tty) {
            HudMode::Off => "off"@,
            HudMode::Heartbeat => "heartbeat"@,
        }),
        interval matches Some(s) ==> trimmed(s).len() == 0 || (parsed_u64(trimmed(s)) matches Some(
            n,
        ) && chosen_interval(interval) >= n && (n >= MIN_INTERVAL_SECS ==> chosen_interval(interval)
            == n)),
{
    reveal_strlit("off");
    reveal_strlit("heartbeat");
    if let Some(w) = interval_warning(interval) {
        if let Some(m) = mode_warning(hud, is_tty) {
            assert(setting_warnings(hud, interval, is_tty) == seq![m].push(w));
        }
    }
}

/// Whatever the setting, heartbeats keep the shortest interval.
pub proof fn law_interval_has_floor(interval: Option<Seq<char>>)
    ensures
        chosen_interval(interval) >= MIN_INTERVAL_SECS,
{
}

/// A number of seconds is followed, down to the shortest interval.
pub proof fn law_interval_is_followed(n: nat)
    requires
        n <= u64::MAX,
    ensures
        chosen_interval(Some(decimal(n))) == if n < MIN_INTERVAL_SECS {
            MIN_INTERVAL_SECS as nat
        } else {
            n
        },
        interval_warning(Some(decimal(n))) is None,
{
    law_decimal_reads_back(n);
}

/// The heartbeat that is off is never due, and one that is on is due exactly when
/// the interval has passed since the last one or since the start of the turn.
pub proof fn law_cadence(state: HudState, now: nat)
    requires
        state.well_formed(),
    ensures
        state.is_due(now) <==> state.is_on() && now >= state.last_emit@ + state.interval@,
{
}

/// Whatever the interval, a heartbeat that is on is due from one interval after the last
/// one on; without an interval it is always due.
pub proof fn law_due_after_interval(state: HudState, now: nat)
    ensures
        state.is_due(now) <==> state.mode == HudMode::Heartbeat && (now >= state.last_emit@
            + state.interval@ || state.interval@ == 0),
{
}

/// A heartbeat that is due stays due until one is printed.
pub proof fn law_due_stays_due(state: HudState, now: nat, later: nat)
    requires
        state.is_due(now),
        now <= later,
    ensures
        state.is_due(later),
{
}

/// A session that sleeps as long as it may wakes with a heartbeat due. It never
/// sleeps shorter than a frame of the spinner or longer than the interval, and it
/// oversleeps by no more than a frame.
pub proof fn law_sleep_keeps_cadence(state: HudState, now: nat)
    requires
        state.well_formed(),
        state.is_on(),
        state.last_emit@ <= now,
    ensures
        state.is_due(now + state.longest_sleep(now)),
        state.longest_sleep(now) >= SPINNER_INTERVAL_MILLIS * NANOS_PER_MILLI,
        state.longest_sleep(now) <= state.interval@,
        state.longest_sleep(now) > SPINNER_INTERVAL_MILLIS * NANOS_PER_MILLI ==> now
            + state.longest_sleep(now) == state.last_emit@ + state.interval@,
{
}

/// The line holds no control character where the label holds none, so it holds no
/// carriage return, no line feed and no escape sequence.
pub proof fn law_line_is_permanent(elapsed: nat, active: Option<(Seq<char>, nat)>)
    requires
        active matches Some((label, _)) ==> control_free(label),
    ensures
        control_free(heartbeat_line(elapsed, active)),
        !heartbeat_line(elapsed, active).contains('\r'),
        !heartbeat_line(elapsed, active).contains('\n'),
        !heartbeat_line(elapsed, active).contains('\x1b'),
{
    reveal_strlit("[⏱ ");
    reveal_strlit(" · tool: ");
    reveal_strlit(" · thinking]");
    reveal_strlit(" ");
    reveal_strlit("]");
    let turn = duration_text(elapsed, " "@);
    law_duration_text(elapsed, " "@);
    lemma_control_free_add("[⏱ "@, turn);
    match active {
        Some((label, tool_elapsed)) => {
            law_duration_text(tool_elapsed, " "@);
            let tool = duration_text(tool_elapsed, " "@);
            lemma_control_free_add("[⏱ "@ + turn, " · tool: "@);
            lemma_control_free_add("[⏱ "@ + turn + " · tool: "@, label);
            lemma_control_free_add("[⏱ "@ + turn + " · tool: "@ + label, " "@);
            lemma_control_free_add("[⏱ "@ + turn + " · tool: "@ + label + " "@, tool);
            lemma_control_free_add("[⏱ "@ + turn + " · tool: "@ + label + " "@ + tool, "]"@);
        },
        None => {
            lemma_control_free_add("[⏱ "@ + turn, " · thinking]"@);
        },
    }
}

/// The line about a tool call with the label that its input gives holds no control
/// character, whatever the input holds, where the tool's name holds none.
pub proof fn law_line_of_labelled_call(
    elapsed: nat,
    name: Seq<char>,
    input: JsonView,
    tool_elapsed: nat,
)
    requires
        control_free(name),
    ensures
        control_free(heartbeat_line(elapsed, Some((label(name, input), tool_elapsed)))),
{
    law_label(name, input);
    law_line_is_permanent(elapsed, Some((label(name, input), tool_elapsed)));
}

/// The label stands in the line as it is given.
pub proof fn law_line_shows_label(elapsed: nat, shown: Seq<char>, tool_elapsed: nat)
    ensures
        exists|i: int|
            0 <= i <= heartbeat_line(elapsed, Some((shown, tool_elapsed))).len() - shown.len()
                && #[trigger] heartbeat_line(elapsed, Some((shown, tool_elapsed))).subrange(
                i,
                i + shown.len(),
            ) == shown,
{
    let line = heartbeat_line(elapsed, Some((shown, tool_elapsed)));
    let i = ("[⏱ "@ + duration_text(elapsed, " "@) + " · tool: "@).len() as int;
    assert(line.subrange(i, i + shown.len()) == shown);
}

/// The line of a turn without an active call tells the time of the turn, and that the
/// session is thinking.
pub proof fn law_thinking_line_tells_time(elapsed: nat)
    ensures
        exists|turn: Seq<char>| #[trigger]
            tells_time(turn, " "@, elapsed) && heartbeat_line(elapsed, None) == "[⏱ "@ + turn
                + " · thinking]"@,
{
    law_duration_reads_back(elapsed, " "@);
}

/// The line about a tool call tells the time of the turn, then the label as it is given,
/// then the time of the call.
pub proof fn law_tool_line_tells_times(elapsed: nat, shown: Seq<char>, tool_elapsed: nat)
    ensures
        exists|turn: Seq<char>, call: Seq<char>| #[trigger]
            tells_time(turn, " "@, elapsed) && #[trigger] tells_time(call, " "@, tool_elapsed)
                && heartbeat_line(elapsed, Some((shown, tool_elapsed))) == "[⏱ "@ + turn
                + " · tool: "@ + shown + " "@ + call + "]"@,
{
    law_duration_reads_back(elapsed, " "@);
    law_duration_reads_back(tool_elapsed, " "@);
}

/// A setting that is given is seen with all its characters.
pub proof fn law_given(setting: &str)
    ensures
        given(Some(setting)) == Some(setting@),
        given(None) is None,
{
}

/// A mode that is not understood leaves the choice to the terminal, as where none is set.
/// The warning shows what was set, and names the mode that is chosen.
pub proof fn law_unknown_mode_is_told(hud: Seq<char>, is_tty: bool)
    requires
        mode_word(hud).len() > 0,
        mode_word(hud) != "off"@,
        mode_word(hud) != "heartbeat"@,
    ensures
        chosen_mode(Some(hud), is_tty) == chosen_mode(None, is_tty),
        mode_warning(Some(hud), is_tty) == Some(
            "[thclaws] THCLAWS_HUD='"@ + mode_word(hud)
                + "' not recognized (use 'off' or 'heartbeat'); defaulting to "@ + (
            match chosen_mode(Some(hud), is_tty) {
                HudMode::Off => "off"@,
                HudMode::Heartbeat => "heartbeat"@,
            }),
        ),
{
}

/// The word of a mode setting does not depend on white space around it.
pub proof fn law_mode_word_is_trimmed(hud: Seq<char>)
    ensures
        mode_word(hud).len() == trimmed(hud).len(),
        forall|i: int|
            0 <= i < trimmed(hud).len() ==> (#[trigger] mode_word(hud)[i]) as u32 == if 'A'
                <= trimmed(hud)[i] <= 'Z' {
                trimmed(hud)[i] as u32 + ('a' as u32 - 'A' as u32)
            } else {
                trimmed(hud)[i] as int
            },
{
    law_ascii_lower(trimmed(hud));
}

/// Where no interval is set, or none that can be read, heartbeats come every thirty
/// seconds. The warning shows what was set, where it is not blank, and says so.
pub proof fn law_unreadable_interval_is_told(interval: Seq<char>)
    requires
        parsed_u64(trimmed(interval)) is None,
    ensures
        chosen_interval(None) == 30,
        interval_warning(None) is None,
        chosen_interval(Some(interval)) == 30,
        trimmed(interval).len() == 0 ==> interval_warning(Some(interval)) is None,
        trimmed(interval).len() > 0 ==> interval_warning(Some(interval)) == Some(
            "[thclaws] THCLAWS_HUD_INTERVAL='"@ + trimmed(interval)
                + "' is not a positive integer; using default "@ + decimal(30) + "s"@,
        ),
{
}

/// A number of seconds that can be read is followed, down to five seconds, and nothing is
/// said about it.
pub proof fn law_readable_interval_is_followed(interval: Seq<char>, n: nat)
    requires
        parsed_u64(trimmed(interval)) == Some(n),
    ensures
        n >= 5 ==> chosen_interval(Some(interval)) == n,
        n < 5 ==> chosen_interval(Some(interval)) == 5,
        interval_warning(Some(interval)) is None,
{
}

/// The warnings are that about the mode, where there is one, and then that about the
/// interval, where there is one.
pub proof fn law_warnings_in_order(
    hud: Option<Seq<char>>,
    interval: Option<Seq<char>>,
    is_tty: bool,
)
    ensures
        ({
            let warnings = setting_warnings(hud, interval, is_tty);
            match (mode_warning(hud, is_tty), interval_warning(interval)) {
                (Some(m), Some(i)) => warnings == seq![m, i],
                (Some(m), None) => warnings == seq![m],
                (None, Some(i)) => warnings == seq![i],
                (None, None) => warnings.len() == 0,
            }
        }),
{
    if let Some(m) = mode_warning(hud, is_tty) {
        if let Some(i) = interval_warning(interval) {
            assert(seq![m].push(i) == seq![m, i]);
        }
    } else if let Some(i) = interval_warning(interval) {
        assert(Seq::<Seq<char>>::empty().push(i) == seq![i]);
    }
}

/// From any moment on, the session may sleep for what is left of the interval, or for a
/// tenth of a second where less is left. A heartbeat of the future counts as just printed.
pub proof fn law_longest_sleep(state: HudState, now: nat)
    ensures
        ({
            let sleep = state.longest_sleep(now);
            let due = state.last_emit@ + state.interval@;
            &&& sleep >= 100_000_000
            &&& state.last_emit@ <= now && now + 100_000_000 <= due ==> now + sleep == due
            &&& state.last_emit@ <= now && now + 100_000_000 > due ==> sleep == 100_000_000
            &&& state.last_emit@ > now && state.interval@ >= 100_000_000 ==> sleep
                == state.interval@
        }),
{
}

} // verus!
