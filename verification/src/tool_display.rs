//! Labels, durations and heartbeat text for tool calls in progress.
use vstd::prelude::*;
use vstd::string::*;

use crate::json::{Json, JsonView};
use crate::redaction::{holds_one_secret, is_announced_secret, is_plain, may_hold_secret, redact_secrets, redacted};
use crate::text::{all_digits, chars_of, control_free, decimal, digit_char, digits_value, is_control, is_control_char, is_white_space, is_whitespace, law_decimal_reads_back, push_decimal, str_eq, string_of};
use crate::time::{Duration, NANOS_PER_SEC};

verus! {

/// Most characters that the detail of a label shows.
pub const PREVIEW_CAP: usize = 60;

/// Milliseconds between two frames of the spinner.
pub const SPINNER_INTERVAL_MILLIS: u64 = 100;

// ── sanitization ───────────────────────────────────────────────────

/// Whether `c` separates words: white space or a control character.
pub open spec fn is_separator(c: char) -> bool {
    is_control_char(c) || is_white_space(c)
}

/// The maximal runs of characters in `s` that are no separators, in order.
pub open spec fn words(s: Seq<char>) -> Seq<Seq<char>>
    decreases s.len(),
{
    if s.len() == 0 {
        Seq::empty()
    } else {
        let before = words(s.drop_last());
        if is_separator(s.last()) {
            before
        } else if s.len() == 1 || is_separator(s[s.len() - 2]) {
            before.push(seq![s.last()])
        } else {
            before.drop_last().push(before.last().push(s.last()))
        }
    }
}

/// The given words with single spaces between them.
pub open spec fn spaced(ws: Seq<Seq<char>>) -> Seq<char>
    decreases ws.len(),
{
    if ws.len() == 0 {
        Seq::empty()
    } else if ws.len() == 1 {
        ws[0]
    } else {
        spaced(ws.drop_last()).push(' ') + ws.last()
    }
}

/// `s` without control characters, and with every run of white space made a
/// single space between words.
pub open spec fn sanitized(s: Seq<char>) -> Seq<char> {
    spaced(words(s))
}

/// Where the last character is no separator, the last word ends in it.
proof fn lemma_words_open(s: Seq<char>)
    requires
        s.len() > 0,
        !is_separator(s.last()),
    ensures
        words(s).len() > 0,
        words(s).last().len() > 0,
    decreases s.len(),
{
    if s.len() > 1 && !is_separator(s[s.len() - 2]) {
        lemma_words_open(s.drop_last());
    }
}

/// One more word after a space, or one more character of the last word.
proof fn lemma_spaced_grows(ws: Seq<Seq<char>>, w: Seq<char>, c: char)
    ensures
        ws.len() > 0 ==> spaced(ws.push(w)) == spaced(ws).push(' ') + w,
        ws.len() > 0 ==> spaced(ws.drop_last().push(ws.last().push(c))) == spaced(ws).push(c),
        ws.len() == 0 ==> spaced(ws.push(w)) == w,
{
    assert(ws.push(w).drop_last() == ws);
    if ws.len() > 0 {
        let grown = ws.drop_last().push(ws.last().push(c));
        assert(grown.drop_last() == ws.drop_last());
        if ws.len() > 1 {
            assert(spaced(grown) == spaced(ws.drop_last()).push(' ') + ws.last().push(c));
            assert(spaced(grown) == spaced(ws).push(c));
        }
    }
}

/// Strip control characters and collapse white space into single spaces.
pub fn sanitize_label_field(s: &str) -> (r: String)
    ensures
        r@ == sanitized(s@),
{
    let v = chars_of(s);
    let mut out = String::new();
    let mut started: bool = false;
    let mut i: usize = 0;
    while i < v.len()
        invariant
            i <= v@.len(),
            v@ == s@,
            out@ == sanitized(s@.take(i as int)),
            started == (words(s@.take(i as int)).len() > 0),
        decreases v@.len() - i,
    {
        let c = v[i];
        proof {
            let now = s@.take(i as int);
            let next = s@.take(i + 1);
            assert(next.drop_last() == now);
            assert(next.last() == c);
            lemma_spaced_grows(words(now), seq![c], c);
            if i > 0 {
                assert(next[i - 1] == now.last());
                if !is_separator(now.last()) {
                    lemma_words_open(now);
                }
            }
            assert(spaced(words(now)).push(' ') + seq![c] == spaced(words(now)).push(' ').push(c));
            assert(Seq::<char>::empty().push(c) == seq![c]);
        }
        if !is_control(c) && !is_whitespace(c) {
            if i > 0 && (is_control(v[i - 1]) || is_whitespace(v[i - 1])) && started {
                out.push(' ');
            }
            out.push(c);
            started = true;
        }
        i = i + 1;
    }
    assert(s@.take(s@.len() as int) == s@);
    out
}

// ── previews ───────────────────────────────────────────────────────

/// The first `cap` characters of `s` and an ellipsis, or all of `s` where it
/// has no more than `cap` characters.
pub open spec fn truncated(s: Seq<char>, cap: nat) -> Seq<char> {
    if s.len() <= cap {
        s
    } else {
        s.take(cap as int).push('…')
    }
}

/// Cut `s` to `cap` characters, with an ellipsis where something was cut.
pub fn truncate(s: &str, cap: usize) -> (r: String)
    ensures
        r@ == truncated(s@, cap as nat),
        s@.len() <= cap ==> r@ == s@,
        s@.len() > cap ==> r@.len() == cap + 1 && r@.last() == '…' && forall|i: int|
            0 <= i < cap ==> #[trigger] r@[i] == s@[i],
{
    let v = chars_of(s);
    if v.len() <= cap {
        s.to_owned()
    } else {
        let mut r = string_of(&v, 0, cap);
        r.push('…');
        assert(v@.subrange(0, cap as int) == s@.take(cap as int));
        r
    }
}

/// What is shown of a text without secrets in no more than `cap` characters and
/// an ellipsis.
pub open spec fn shortened(s: Seq<char>, cap: nat) -> Seq<char> {
    truncated(sanitized(s), cap)
}

/// What is shown of any text in no more than `cap` characters and an ellipsis.
pub open spec fn previewed(s: Seq<char>, cap: nat) -> Seq<char> {
    shortened(redacted(s), cap)
}

/// Sanitize and cut a text without secrets for display.
pub fn shorten(s: &str, cap: usize) -> (r: String)
    ensures
        r@ == shortened(s@, cap as nat),
{
    truncate(sanitize_label_field(s).as_str(), cap)
}

/// Redact, sanitize and cut a text for display. Of an announced secret, whatever its
/// value, the same is shown.
pub fn preview(s: &str, cap: usize) -> (r: String)
    ensures
        r@ == previewed(s@, cap as nat),
        is_plain(s@) ==> r@ == shortened(s@, cap as nat),
        !may_hold_secret(s@) ==> r@ == shortened(s@, cap as nat),
        forall|head: Seq<char>, value: Seq<char>| #[trigger]
            is_announced_secret(s@, head, value) ==> r@ == shortened(
                head + "<redacted>"@,
                cap as nat,
            ),
        forall|before: Seq<char>, head: Seq<char>, value: Seq<char>, after: Seq<char>| #[trigger]
            holds_one_secret(s@, before, head, value, after) ==> r@ == shortened(
                before + head + "<redacted>"@ + after,
                cap as nat,
            ),
{
    shorten(redact_secrets(s).as_str(), cap)
}

// ── labels ─────────────────────────────────────────────────────────

/// The input field that the label of the named tool shows.
pub open spec fn shown_field(name: Seq<char>) -> Option<Seq<char>> {
    if name == "Bash"@ {
        Some("command"@)
    } else if name == "Read"@ || name == "Write"@ || name == "Edit"@ {
        Some("path"@)
    } else if name == "Glob"@ || name == "Grep"@ {
        Some("pattern"@)
    } else if name == "WebFetch"@ {
        Some("url"@)
    } else if name == "WebSearch"@ {
        Some("query"@)
    } else if name == "Skill"@ {
        Some("name"@)
    } else if name == "Task"@ {
        Some("agent"@)
    } else if name == "AskUserQuestion"@ {
        Some("question"@)
    } else {
        None
    }
}

/// The label of a call of the named tool, whose shown field holds the given text
/// without secrets: the tool's name, and in brackets what is shown of the text,
/// where there is something to show.
pub open spec fn label_of(name: Seq<char>, text: Option<Seq<char>>) -> Seq<char> {
    match text {
        Some(t) => {
            let shown = shortened(t, PREVIEW_CAP as nat);
            if name == "Task"@ {
                name + " (agent="@ + shown + ")"@
            } else if shown.len() > 0 {
                name + " ("@ + shown + ")"@
            } else {
                name
            }
        },
        None => name,
    }
}

/// The text that the input of the named tool holds in the field that is shown.
pub open spec fn field_text(name: Seq<char>, input: JsonView) -> Option<Seq<char>> {
    match shown_field(name) {
        Some(field) => input.text_member(field),
        None => None,
    }
}

/// The label of a call of the named tool with the given input. The text in it has
/// its secrets redacted.
pub open spec fn label(name: Seq<char>, input: JsonView) -> Seq<char> {
    label_of(
        name,
        match field_text(name, input) {
            Some(text) => Some(redacted(text)),
            None => None,
        },
    )
}

/// The input field that the label of the named tool shows.
pub fn label_field(name: &str) -> (field: Option<&'static str>)
    ensures
        match field {
            Some(f) => shown_field(name@) == Some(f@),
            None => shown_field(name@) is None,
        },
{
    if str_eq(name, "Bash") {
        Some("command")
    } else if str_eq(name, "Read") || str_eq(name, "Write") || str_eq(name, "Edit") {
        Some("path")
    } else if str_eq(name, "Glob") || str_eq(name, "Grep") {
        Some("pattern")
    } else if str_eq(name, "WebFetch") {
        Some("url")
    } else if str_eq(name, "WebSearch") {
        Some("query")
    } else if str_eq(name, "Skill") {
        Some("name")
    } else if str_eq(name, "Task") {
        Some("agent")
    } else if str_eq(name, "AskUserQuestion") {
        Some("question")
    } else {
        None
    }
}

/// Build the label of a tool call from the text in its shown field, where there is
/// one. The text has its secrets redacted already.
pub fn label_with(name: &str, text: Option<&str>) -> (r: String)
    ensures
        r@ == label_of(
            name@,
            match text {
                Some(t) => Some(t@),
                None => None,
            },
        ),
{
    let mut out: String = name.to_owned();
    if let Some(t) = text {
        let shown = shorten(t, PREVIEW_CAP);
        if str_eq(name, "Task") {
            out.append(" (agent=");
            out.append(shown.as_str());
            out.append(")");
        } else if !shown.as_str().is_empty() {
            out.append(" (");
            out.append(shown.as_str());
            out.append(")");
        }
    }
    out
}

/// Build the compact label of a tool call, for example
/// `Bash (cargo test)`, `Read (src/main.rs)`, `Task (agent=dev)`, or only the
/// tool's name where there is nothing to show with it.
pub fn tool_label(name: &str, input: &Json) -> (r: String)
    ensures
        r@ == label(name@, input@),
        field_text(name@, input@) matches Some(text) ==> is_plain(text) ==> r@ == label_of(
            name@,
            Some(text),
        ),
        field_text(name@, input@) matches Some(text) ==> forall|head: Seq<char>, value: Seq<char>|
            #[trigger] is_announced_secret(text, head, value) ==> r@ == label_of(
                name@,
                Some(head + "<redacted>"@),
            ),
        field_text(name@, input@) matches Some(text) ==> !may_hold_secret(text) ==> r@ == label_of(
            name@,
            Some(text),
        ),
        field_text(name@, input@) matches Some(text) ==> forall|
            before: Seq<char>,
            head: Seq<char>,
            value: Seq<char>,
            after: Seq<char>,
        | #[trigger]
            holds_one_secret(text, before, head, value, after) ==> r@ == label_of(
                name@,
                Some(before + head + "<redacted>"@ + after),
            ),
{
    let text = match label_field(name) {
        Some(field) => input.text_field(field),
        None => None,
    };
    match text {
        Some(t) => label_with(name, Some(redact_secrets(t).as_str())),
        None => label_with(name, None),
    }
}

// ── durations ──────────────────────────────────────────────────────

/// The greatest power of two that is no greater than `n`, for `n` above zero.
pub open spec fn top_power(n: nat) -> nat
    decreases n,
{
    if n < 2 {
        1
    } else {
        2 * top_power(n / 2)
    }
}

/// Whether `tenths` and a half tenth of a second are rounded up. No tie but a
/// quarter and three quarters is exact in double precision: each other one goes
/// the way of the double that is nearest to it, and these two go to the even
/// tenth.
pub open spec fn half_tenth_rounds_up(tenths: nat) -> bool {
    tenths == 0 || 4 <= tenths <= 7
}

/// A time below a second, in tenths of a second.
pub open spec fn rounded_tenths(nanos: nat) -> nat {
    let tenths = nanos / 100_000_000;
    let rest = nanos % 100_000_000;
    if rest > 50_000_000 || (rest == 50_000_000 && half_tenth_rounds_up(tenths)) {
        tenths + 1
    } else {
        tenths
    }
}

/// A time in whole seconds, where a half counts as one more.
pub open spec fn rounded_secs(nanos: nat) -> nat {
    (nanos + 500_000_000) / 1_000_000_000
}

/// The whole seconds in a time that is kept as a double-precision number of
/// seconds. A double has 53 significant bits, so near `secs` it goes in steps of
/// `top_power(secs)` over two to the power 52. A time that is less than half a
/// step below a whole second counts as that second.
pub open spec fn whole_secs(nanos: nat) -> nat {
    let secs = nanos / 1_000_000_000;
    let below_next = (1_000_000_000 - nanos % 1_000_000_000) as nat;
    if below_next * 0x20_0000_0000_0000 < 1_000_000_000 * top_power(secs) {
        secs + 1
    } else {
        secs
    }
}

/// The seconds that minutes and seconds are made of: no more than 32 bits hold.
pub open spec fn counted_secs(nanos: nat) -> nat {
    if whole_secs(nanos) <= u32::MAX {
        whole_secs(nanos)
    } else {
        u32::MAX as nat
    }
}

/// A number below a hundred in two digits.
pub open spec fn two_digits(n: nat) -> Seq<char> {
    seq![digit_char(n / 10), digit_char(n % 10)]
}

/// A time in text: tenths of a second below a second, whole seconds below a
/// minute, and from there on minutes and seconds with `gap` between them.
pub open spec fn duration_text(nanos: nat, gap: Seq<char>) -> Seq<char> {
    if nanos < 1_000_000_000 {
        decimal(rounded_tenths(nanos) / 10) + "."@ + decimal(rounded_tenths(nanos) % 10) + "s"@
    } else if nanos < 60_000_000_000 {
        decimal(rounded_secs(nanos)) + "s"@
    } else {
        decimal(counted_secs(nanos) / 60) + "m"@ + gap + two_digits(counted_secs(nanos) % 60)
            + "s"@
    }
}

/// Compute [`top_power`].
fn greatest_power(n: u128) -> (p: u128)
    requires
        0 < n,
    ensures
        p == top_power(n as nat),
        0 < p <= n,
    decreases n,
{
    if n < 2 {
        1
    } else {
        2 * greatest_power(n / 2)
    }
}

/// Compute [`counted_secs`] of a time of a second or more.
fn count_secs(nanos: u128) -> (secs: u64)
    requires
        nanos >= NANOS_PER_SEC,
    ensures
        secs == counted_secs(nanos as nat),
{
    let secs: u128 = nanos / NANOS_PER_SEC;
    if secs >= u32::MAX as u128 {
        return u32::MAX as u64;
    }
    let below_next: u128 = NANOS_PER_SEC - nanos % NANOS_PER_SEC;
    if below_next * 0x20_0000_0000_0000 < NANOS_PER_SEC * greatest_power(secs) {
        (secs + 1) as u64
    } else {
        secs as u64
    }
}

/// Write a time in text, with `gap` between minutes and seconds.
pub fn format_duration_with(d: Duration, gap: &str) -> (r: String)
    ensures
        r@ == duration_text(d@, gap@),
{
    let mut out = String::new();
    let nanos: u128 = d.nanos;
    if nanos < NANOS_PER_SEC {
        let tenths: u64 = (nanos / 100_000_000) as u64;
        let rest: u64 = (nanos % 100_000_000) as u64;
        let up: bool = rest > 50_000_000 || (rest == 50_000_000 && (tenths == 0 || (4 <= tenths
            && tenths <= 7)));
        let rounded: u64 = if up {
            tenths + 1
        } else {
            tenths
        };
        push_decimal(&mut out, rounded / 10);
        out.append(".");
        push_decimal(&mut out, rounded % 10);
    } else if nanos < 60 * NANOS_PER_SEC {
        push_decimal(&mut out, ((nanos + 500_000_000) / NANOS_PER_SEC) as u64);
    } else {
        let secs: u64 = count_secs(nanos);
        push_decimal(&mut out, secs / 60);
        out.append("m");
        out.append(gap);
        let left: u64 = secs % 60;
        let ghost before = out@;
        push_decimal(&mut out, left / 10);
        push_decimal(&mut out, left % 10);
        assert(out@ == before + two_digits(left as nat));
    }
    out.append("s");
    out
}

/// Write a time in text, like `1m12s`, `42s` or `0.3s`.
pub fn format_duration(d: Duration) -> (r: String)
    ensures
        r@ == duration_text(d@, ""@),
{
    format_duration_with(d, "")
}

// ── heartbeat text ─────────────────────────────────────────────────

/// The heartbeat text of a tool call that is still running, like
/// `[tool: Bash (sleep 60)] still running 45s`.
pub fn format_tool_heartbeat(label: &str, elapsed: Duration) -> (r: String)
    ensures
        r@ == "[tool: "@ + label@ + "] still running "@ + duration_text(elapsed@, ""@),
{
    let mut out = String::new();
    out.append("[tool: ");
    out.append(label);
    out.append("] still running ");
    out.append(format_duration(elapsed).as_str());
    assert(out@ == "[tool: "@ + label@ + "] still running "@ + duration_text(elapsed@, ""@));
    out
}

// ── laws ───────────────────────────────────────────────────────────

/// No word is empty or holds a separator.
proof fn lemma_words_clean(s: Seq<char>)
    ensures
        forall|i: int| 0 <= i < words(s).len() ==> (#[trigger] words(s)[i]).len() > 0,
        forall|i: int, j: int|
            0 <= i < words(s).len() && 0 <= j < words(s)[i].len() ==> !is_separator(
                #[trigger] words(s)[i][j],
            ),
    decreases s.len(),
{
    if s.len() > 0 {
        let before = words(s.drop_last());
        lemma_words_clean(s.drop_last());
        if !is_separator(s.last()) && s.len() > 1 && !is_separator(s[s.len() - 2]) {
            lemma_words_open(s.drop_last());
            assert forall|i: int, j: int|
                0 <= i < words(s).len() && 0 <= j < words(s)[i].len() implies !is_separator(
                #[trigger] words(s)[i][j],
            ) by {
                if i == before.len() - 1 && j < before.last().len() {
                    assert(words(s)[i][j] == before[i][j]);
                } else if i < before.len() - 1 {
                    assert(words(s)[i] == before[i]);
                }
            }
        }
    }
}

/// What single spaces between clean words look like: no separator but the
/// space, none at either end, and no two together.
pub open spec fn is_tidy(s: Seq<char>) -> bool {
    &&& forall|i: int| 0 <= i < s.len() && is_separator(#[trigger] s[i]) ==> s[i] == ' '
    &&& s.len() > 0 ==> !is_separator(s.first()) && !is_separator(s.last())
    &&& forall|i: int|
        0 <= i < s.len() - 1 && is_separator(#[trigger] s[i]) ==> !is_separator(s[i + 1])
}

proof fn lemma_spaced_tidy(ws: Seq<Seq<char>>)
    requires
        forall|i: int| 0 <= i < ws.len() ==> (#[trigger] ws[i]).len() > 0,
        forall|i: int, j: int|
            0 <= i < ws.len() && 0 <= j < ws[i].len() ==> !is_separator(#[trigger] ws[i][j]),
    ensures
        is_tidy(spaced(ws)),
        ws.len() > 0 ==> spaced(ws).len() > 0,
    decreases ws.len(),
{
    if ws.len() == 1 {
        let r = spaced(ws);
        assert forall|i: int| 0 <= i < r.len() implies !is_separator(#[trigger] r[i]) by {
            assert(r[i] == ws[0][i]);
        }
    } else if ws.len() > 1 {
        let front = ws.drop_last();
        assert forall|i: int, j: int|
            0 <= i < front.len() && 0 <= j < front[i].len() implies !is_separator(
            #[trigger] front[i][j],
        ) by {
            assert(front[i][j] == ws[i][j]);
        }
        lemma_spaced_tidy(front);
        let a = spaced(front);
        let w = ws.last();
        let r = spaced(ws);
        assert(r == a.push(' ') + w);
        assert forall|j: int| 0 <= j < w.len() implies !is_separator(#[trigger] w[j]) by {
            assert(w[j] == ws[ws.len() - 1][j]);
        }
        assert forall|i: int| 0 <= i < r.len() && is_separator(#[trigger] r[i]) implies r[i]
            == ' ' by {
            if i < a.len() {
                assert(r[i] == a[i]);
            } else if i > a.len() {
                assert(r[i] == w[i - a.len() - 1]);
            }
        }
        assert(r.first() == a.first());
        assert(r.last() == w.last());
        assert forall|i: int| 0 <= i < r.len() - 1 && is_separator(#[trigger] r[i])
            implies !is_separator(r[i + 1]) by {
            if i < a.len() {
                assert(r[i] == a[i]);
                if i < a.len() - 1 {
                    assert(r[i + 1] == a[i + 1]);
                }
            } else {
                assert(r[i + 1] == w[i - a.len()]);
            }
        }
    }
}

/// A sanitized text holds no control character; its only white space is single
/// spaces between words.
pub proof fn law_sanitized_is_tidy(s: Seq<char>)
    ensures
        is_tidy(sanitized(s)),
        control_free(sanitized(s)),
{
    lemma_words_clean(s);
    lemma_spaced_tidy(words(s));
    let r = sanitized(s);
    assert forall|i: int| 0 <= i < r.len() implies !is_control_char(#[trigger] r[i]) by {
        if is_separator(r[i]) {
            assert(r[i] == ' ');
        }
    }
}

proof fn lemma_tidy_unchanged(s: Seq<char>)
    requires
        forall|i: int| 0 <= i < s.len() && is_separator(#[trigger] s[i]) ==> s[i] == ' ',
        s.len() > 0 ==> !is_separator(s.first()),
        forall|i: int|
            0 <= i < s.len() - 1 && is_separator(#[trigger] s[i]) ==> !is_separator(s[i + 1]),
    ensures
        s.len() > 0 && is_separator(s.last()) ==> sanitized(s).push(' ') == s,
        s.len() == 0 || !is_separator(s.last()) ==> sanitized(s) == s,
    decreases s.len(),
{
    if s.len() > 0 {
        let t = s.drop_last();
        let c = s.last();
        assert forall|i: int| 0 <= i < t.len() && is_separator(#[trigger] t[i]) implies t[i]
            == ' ' by {
            assert(t[i] == s[i]);
        }
        assert forall|i: int| 0 <= i < t.len() - 1 && is_separator(#[trigger] t[i])
            implies !is_separator(t[i + 1]) by {
            assert(t[i] == s[i]);
        }
        if t.len() > 0 {
            assert(t.first() == s.first());
            assert(t.last() == s[s.len() - 2]);
        }
        lemma_tidy_unchanged(t);
        lemma_spaced_grows(words(t), seq![c], c);
        assert(t.push(c) == s);
        if is_separator(c) {
            assert(s[s.len() - 1] == ' ');
        } else if t.len() > 0 {
            if is_separator(t.last()) {
                // the word before the space is there
                assert(t.len() > 1);
                assert(!is_separator(t[t.len() - 2]));
                lemma_words_open(t.drop_last());
                assert(words(t) == words(t.drop_last()));
                assert(spaced(words(t)).push(' ') + seq![c] == s);
            } else {
                lemma_words_open(t);
            }
        } else {
            assert(seq![c] == s);
        }
    }
}

/// Sanitizing twice is sanitizing once.
pub proof fn law_sanitize_idempotent(s: Seq<char>)
    ensures
        sanitized(sanitized(s)) == sanitized(s),
{
    law_sanitized_is_tidy(s);
    lemma_tidy_unchanged(sanitized(s));
}

/// The characters of `s` that are no separators.
pub open spec fn without_separators(s: Seq<char>) -> Seq<char> {
    s.filter(|c: char| !is_separator(c))
}

proof fn lemma_without_separators_push(s: Seq<char>, c: char)
    ensures
        without_separators(s.push(c)) == if is_separator(c) {
            without_separators(s)
        } else {
            without_separators(s).push(c)
        },
{
    reveal(Seq::filter);
    assert(s.push(c).drop_last() == s);
}

/// Sanitizing keeps every word, in order, and so every character that is no
/// separator.
pub proof fn law_sanitize_keeps_text(s: Seq<char>)
    ensures
        words(sanitized(s)) == words(s),
        without_separators(sanitized(s)) == without_separators(s),
    decreases s.len(),
{
    if s.len() == 0 {
        assert(sanitized(s) == s);
    } else {
        let t = s.drop_last();
        let c = s.last();
        law_sanitize_keeps_text(t);
        law_sanitized_is_tidy(t);
        lemma_spaced_grows(words(t), seq![c], c);
        assert(t.push(c) == s);
        lemma_without_separators_push(t, c);
        if !is_separator(c) {
            let r = sanitized(t);
            lemma_without_separators_push(r, c);
            assert(r.push(c).drop_last() == r);
            if s.len() > 1 && !is_separator(s[s.len() - 2]) {
                lemma_words_open(t);
                assert(sanitized(s) == r.push(c));
                lemma_words_clean(t);
                lemma_spaced_tidy(words(t));
                assert(r.push(c)[r.len() - 1] == r.last());
                assert(words(r.push(c)) == words(s));
            } else if words(t).len() > 0 {
                assert(sanitized(s) == r.push(' ').push(c));
                lemma_without_separators_push(r, ' ');
                lemma_without_separators_push(r.push(' '), c);
                assert(r.push(' ').drop_last() == r);
                assert(r.push(' ').push(c).drop_last() == r.push(' '));
                assert(r.push(' ').push(c)[r.len() as int] == ' ');
                assert(words(r.push(' ')) == words(t));
                assert(words(r.push(' ').push(c)) == words(s));
            } else {
                assert(sanitized(s) == r.push(c));
                assert(r == Seq::<char>::empty());
                assert(words(r.push(c)) == words(s));
            }
        }
    }
}

/// The words on both sides of a separator are those of the two parts.
proof fn lemma_words_around(a: Seq<char>, c: char, b: Seq<char>)
    requires
        is_separator(c),
    ensures
        words(a.push(c) + b) == words(a) + words(b),
    decreases b.len(),
{
    let s = a.push(c) + b;
    if b.len() == 0 {
        assert(s == a.push(c));
        assert(s.drop_last() == a);
        assert(words(a) + words(b) == words(a));
    } else {
        let t = b.drop_last();
        lemma_words_around(a, c, t);
        assert(s.drop_last() == a.push(c) + t);
        assert(s.last() == b.last());
        assert(s[s.len() - 2] == if b.len() == 1 {
            c
        } else {
            b[b.len() - 2]
        });
        if !is_separator(b.last()) {
            if b.len() == 1 {
                assert(words(t) == Seq::<Seq<char>>::empty());
                assert(words(s) == words(a) + words(b));
            } else if is_separator(b[b.len() - 2]) {
                assert(words(s) == words(a) + words(b));
            } else {
                lemma_words_open(t);
                let x = words(a) + words(t);
                assert(x.last() == words(t).last());
                assert(words(s) == words(a) + words(b));
            }
        }
    }
}

/// The words of two lists with single spaces between them.
proof fn lemma_spaced_add(x: Seq<Seq<char>>, y: Seq<Seq<char>>)
    requires
        x.len() > 0,
        y.len() > 0,
    ensures
        spaced(x + y) == spaced(x).push(' ') + spaced(y),
    decreases y.len(),
{
    assert((x + y).drop_last() == x + y.drop_last());
    if y.len() == 1 {
        assert(x + y.drop_last() == x);
    } else {
        lemma_spaced_add(x, y.drop_last());
    }
}

/// Sanitizing works on the two sides of a separator by themselves. Where there is text on
/// both, a single space stands between them.
pub proof fn law_sanitize_joins(a: Seq<char>, c: char, b: Seq<char>)
    requires
        is_control_char(c) || is_white_space(c),
    ensures
        sanitized(a.push(c) + b) == if sanitized(a).len() == 0 {
            sanitized(b)
        } else if sanitized(b).len() == 0 {
            sanitized(a)
        } else {
            sanitized(a).push(' ') + sanitized(b)
        },
{
    lemma_words_around(a, c, b);
    lemma_words_clean(a);
    lemma_words_clean(b);
    lemma_spaced_tidy(words(a));
    lemma_spaced_tidy(words(b));
    if words(a).len() == 0 {
        assert(words(a) + words(b) == words(b));
    } else if words(b).len() == 0 {
        assert(words(a) + words(b) == words(a));
    } else {
        lemma_spaced_add(words(a), words(b));
    }
}

/// A text with neither control characters nor white space is shown as it is.
pub proof fn law_sanitize_keeps_word(s: Seq<char>)
    requires
        forall|i: int|
            0 <= i < s.len() ==> !is_control_char(#[trigger] s[i]) && !is_white_space(s[i]),
    ensures
        sanitized(s) == s,
{
    lemma_tidy_unchanged(s);
}

/// A text that is cut has `cap` characters and an ellipsis. The characters are the first
/// ones of the text, in order. A text that fits stays as it is.
pub proof fn law_truncated(s: Seq<char>, cap: nat)
    ensures
        s.len() <= cap ==> truncated(s, cap) == s,
        s.len() > cap ==> truncated(s, cap).len() == cap + 1,
        s.len() > cap ==> truncated(s, cap)[cap as int] == '…',
        forall|i: int| 0 <= i < s.len() && i < cap ==> #[trigger] truncated(s, cap)[i] == s[i],
{
}

/// What is shown of a text is the tidy text, or its first `cap` characters and an
/// ellipsis where it is longer.
pub proof fn law_shortened_shows_text(s: Seq<char>, cap: nat)
    ensures
        sanitized(s).len() <= cap ==> shortened(s, cap) == sanitized(s),
        sanitized(s).len() > cap ==> shortened(s, cap).len() == cap + 1,
        sanitized(s).len() > cap ==> shortened(s, cap)[cap as int] == '…',
        forall|i: int|
            0 <= i < sanitized(s).len() && i < cap ==> #[trigger] shortened(s, cap)[i]
                == sanitized(s)[i],
{
    law_truncated(sanitized(s), cap);
}

/// A preview of any text shows the tidy text that redaction leaves, or its first `cap`
/// characters and an ellipsis where it is longer.
pub proof fn law_preview_shows_text(s: Seq<char>, cap: nat)
    ensures
        ({
            let clean = sanitized(redacted(s));
            &&& clean.len() <= cap ==> previewed(s, cap) == clean
            &&& clean.len() > cap ==> previewed(s, cap).len() == cap + 1
            &&& clean.len() > cap ==> previewed(s, cap)[cap as int] == '…'
            &&& forall|i: int|
                0 <= i < clean.len() && i < cap ==> #[trigger] previewed(s, cap)[i] == clean[i]
        }),
{
    law_shortened_shows_text(redacted(s), cap);
}

/// What is shown of a text has at most `cap` characters and an ellipsis, no control
/// character, and no white space but single spaces.
pub proof fn law_shortened(s: Seq<char>, cap: nat)
    ensures
        shortened(s, cap).len() <= cap + 1,
        control_free(shortened(s, cap)),
        forall|i: int|
            0 <= i < shortened(s, cap).len() && is_white_space(#[trigger] shortened(s, cap)[i])
                ==> shortened(s, cap)[i] == ' ',
        forall|i: int|
            0 <= i < shortened(s, cap).len() - 1 && is_white_space(#[trigger] shortened(s, cap)[i])
                ==> !is_white_space(shortened(s, cap)[i + 1]),
{
    law_sanitized_is_tidy(s);
    let clean = sanitized(s);
    let r = shortened(s, cap);
    assert forall|i: int| 0 <= i < r.len() implies !is_control_char(#[trigger] r[i]) && (
    is_white_space(r[i]) ==> r[i] == ' ') by {
        if i < clean.len() && (i < cap || clean.len() <= cap) {
            assert(r[i] == clean[i]);
        }
    }
    assert forall|i: int| 0 <= i < r.len() - 1 && is_white_space(#[trigger] r[i]) implies
        !is_white_space(r[i + 1]) by {
        assert(r[i] == clean[i]);
        if clean.len() <= cap || i + 1 < cap {
            assert(r[i + 1] == clean[i + 1]);
        }
    }
}

/// A preview of any text has at most `cap` characters and an ellipsis, no control
/// character, and no white space but single spaces. It depends on no more of the text
/// than redaction leaves.
pub proof fn law_preview(s: Seq<char>, other: Seq<char>, cap: nat)
    ensures
        previewed(s, cap).len() <= cap + 1,
        control_free(previewed(s, cap)),
        forall|i: int|
            0 <= i < previewed(s, cap).len() && is_white_space(#[trigger] previewed(s, cap)[i])
                ==> previewed(s, cap)[i] == ' ',
        forall|i: int|
            0 <= i < previewed(s, cap).len() - 1 && is_white_space(#[trigger] previewed(s, cap)[i])
                ==> !is_white_space(previewed(s, cap)[i + 1]),
        redacted(s) == redacted(other) ==> previewed(s, cap) == previewed(other, cap),
{
    law_shortened(redacted(s), cap);
}

/// Two texts without control characters make one.
pub(crate) proof fn lemma_control_free_add(a: Seq<char>, b: Seq<char>)
    requires
        control_free(a),
        control_free(b),
    ensures
        control_free(a + b),
{
    assert forall|i: int| 0 <= i < (a + b).len() implies !is_control_char(
        #[trigger] (a + b)[i],
    ) by {
        if i < a.len() {
            assert((a + b)[i] == a[i]);
        } else {
            assert((a + b)[i] == b[i - a.len()]);
        }
    }
}

/// A label begins with the tool's name, is bounded in length, and holds no
/// control character where the name holds none.
pub proof fn law_label(name: Seq<char>, input: JsonView)
    ensures
        label(name, input).take(name.len() as int) == name,
        label(name, input).len() <= name.len() + PREVIEW_CAP + 10,
        control_free(name) ==> control_free(label(name, input)),
{
    reveal_strlit(" (");
    reveal_strlit(" (agent=");
    reveal_strlit(")");
    let r = label(name, input);
    match field_text(name, input) {
        Some(text) => {
            let shown = previewed(text, PREVIEW_CAP as nat);
            law_shortened(redacted(text), PREVIEW_CAP as nat);
            assert(r.take(name.len() as int) == name);
            if control_free(name) {
                lemma_control_free_add(name, " (agent="@);
                lemma_control_free_add(name + " (agent="@, shown);
                lemma_control_free_add(name + " (agent="@ + shown, ")"@);
                lemma_control_free_add(name, " ("@);
                lemma_control_free_add(name + " ("@, shown);
                lemma_control_free_add(name + " ("@ + shown, ")"@);
            }
        },
        None => {
            assert(name.take(name.len() as int) == name);
        },
    }
}

/// A label with a text in it is the tool's name, an opening bracket, what is shown of the
/// text, and a closing bracket. Where nothing is shown it is the name alone, but for a
/// task, of which the agent is always named.
pub proof fn law_label_of(name: Seq<char>, text: Seq<char>)
    ensures
        label_of(name, None) == name,
        ({
            let r = label_of(name, Some(text));
            let shown = shortened(text, 60);
            let opening = if name == "Task"@ {
                " (agent="@
            } else {
                " ("@
            };
            let from = name.len() + opening.len();
            if shown.len() == 0 && name != "Task"@ {
                r == name
            } else {
                &&& r.len() == from + shown.len() + 1
                &&& r.take(name.len() as int) == name
                &&& r.subrange(name.len() as int, from as int) == opening
                &&& r.subrange(from as int, (from + shown.len()) as int) == shown
                &&& r.last() == ')'
            }
        }),
{
    reveal_strlit(" (");
    reveal_strlit(" (agent=");
    reveal_strlit(")");
    let r = label_of(name, Some(text));
    let shown = shortened(text, 60);
    let opening = if name == "Task"@ {
        " (agent="@
    } else {
        " ("@
    };
    let from = name.len() + opening.len();
    if shown.len() > 0 || name == "Task"@ {
        assert(r == name + opening + shown + ")"@);
        assert(r.take(name.len() as int) == name);
        assert(r.subrange(name.len() as int, from as int) == opening);
        assert(r.subrange(from as int, (from + shown.len()) as int) == shown);
    }
}

/// The label of a call shows what redaction leaves of the text that the input holds in the
/// tool's field. Without such a text, or without such a field, it is the tool's name.
pub proof fn law_label_shows_text(name: Seq<char>, input: JsonView)
    ensures
        label(name, input) == match shown_field(name) {
            Some(field) => match input.text_member(field) {
                Some(text) => label_of(name, Some(redacted(text))),
                None => name,
            },
            None => name,
        },
{
}

/// The tools whose labels show something, by the field that they show.
pub proof fn law_shown_field(name: Seq<char>)
    ensures
        shown_field(name) == Some("command"@) <==> name == "Bash"@,
        shown_field(name) == Some("path"@) <==> name == "Read"@ || name == "Write"@ || name
            == "Edit"@,
        shown_field(name) == Some("pattern"@) <==> name == "Glob"@ || name == "Grep"@,
        shown_field(name) == Some("url"@) <==> name == "WebFetch"@,
        shown_field(name) == Some("query"@) <==> name == "WebSearch"@,
        shown_field(name) == Some("name"@) <==> name == "Skill"@,
        shown_field(name) == Some("agent"@) <==> name == "Task"@,
        shown_field(name) == Some("question"@) <==> name == "AskUserQuestion"@,
        shown_field(name) matches Some(field) ==> field == "command"@ || field == "path"@ || field
            == "pattern"@ || field == "url"@ || field == "query"@ || field == "name"@ || field
            == "agent"@ || field == "question"@,
{
    reveal_strlit("Bash");
    reveal_strlit("Read");
    reveal_strlit("Write");
    reveal_strlit("Edit");
    reveal_strlit("Glob");
    reveal_strlit("Grep");
    reveal_strlit("WebFetch");
    reveal_strlit("WebSearch");
    reveal_strlit("Skill");
    reveal_strlit("Task");
    reveal_strlit("AskUserQuestion");
    reveal_strlit("command");
    reveal_strlit("path");
    reveal_strlit("pattern");
    reveal_strlit("url");
    reveal_strlit("query");
    reveal_strlit("name");
    reveal_strlit("agent");
    reveal_strlit("question");
    assert("Bash"@.len() == 4 && "Read"@.len() == 4 && "Edit"@.len() == 4 && "Task"@.len() == 4);
    assert("Glob"@.len() == 4 && "Grep"@.len() == 4 && "Write"@.len() == 5 && "Skill"@.len() == 5);
    assert("WebFetch"@.len() == 8 && "WebSearch"@.len() == 9 && "AskUserQuestion"@.len() == 15);
    assert("command"@.len() == 7 && "path"@.len() == 4 && "pattern"@.len() == 7);
    assert("url"@.len() == 3 && "query"@.len() == 5 && "name"@.len() == 4);
    assert("agent"@.len() == 5 && "question"@.len() == 8);
    assert("Bash"@[0] == 'B' && "Read"@[0] == 'R' && "Edit"@[0] == 'E' && "Task"@[0] == 'T');
    assert("Glob"@[1] == 'l' && "Grep"@[1] == 'r' && "Glob"@[0] == 'G' && "Grep"@[0] == 'G');
    assert("Write"@[0] == 'W' && "Skill"@[0] == 'S');
    assert("command"@[0] == 'c' && "pattern"@[0] == 'p');
    assert("path"@[0] == 'p' && "name"@[0] == 'n');
    assert("query"@[0] == 'q' && "agent"@[0] == 'a');
    assert("command"@ != "pattern"@ && "path"@ != "name"@ && "query"@ != "agent"@);
    assert("Read"@ != "Bash"@ && "Edit"@ != "Bash"@ && "Glob"@ != "Bash"@ && "Grep"@ != "Bash"@);
    assert("Glob"@ != "Read"@ && "Glob"@ != "Edit"@ && "Grep"@ != "Read"@ && "Grep"@ != "Edit"@);
    assert("Skill"@ != "Write"@ && "Task"@ != "Bash"@ && "Task"@ != "Read"@ && "Task"@ != "Edit"@);
    assert("Task"@ != "Glob"@ && "Task"@ != "Grep"@);
}

/// A label depends on no more of the input than the text in the shown field, and on
/// no more of that text than redaction leaves.
pub proof fn law_label_sees_redacted_text(name: Seq<char>, a: JsonView, b: JsonView)
    requires
        match (field_text(name, a), field_text(name, b)) {
            (Some(s), Some(t)) => redacted(s) == redacted(t),
            (None, None) => true,
            _ => false,
        },
    ensures
        label(name, a) == label(name, b),
{
}

proof fn lemma_decimal_control_free(n: nat)
    ensures
        control_free(decimal(n)),
    decreases n,
{
    if n >= 10 {
        lemma_decimal_control_free(n / 10);
    }
}

proof fn lemma_top_power(n: nat)
    requires
        n > 0,
    ensures
        0 < top_power(n) <= n,
    decreases n,
{
    if n >= 2 {
        lemma_top_power(n / 2);
    }
}

/// Up to a hundred days whole seconds are counted exactly, and never is the count
/// off by more than one.
pub proof fn law_whole_secs(nanos: nat)
    ensures
        nanos / 1_000_000_000 <= whole_secs(nanos) <= nanos / 1_000_000_000 + 1,
        nanos <= 8_640_000_000_000_000 ==> whole_secs(nanos) == nanos / 1_000_000_000,
{
    let secs = nanos / 1_000_000_000;
    if secs > 0 {
        lemma_top_power(secs);
    }
}

/// Whole seconds are counted exactly as long as a double keeps nanoseconds apart, half a
/// year and more. The count never exceeds 32 bits.
pub proof fn law_counted_secs(nanos: nat)
    ensures
        nanos / 1_000_000_000 < 0x100_0000 ==> counted_secs(nanos) == nanos / 1_000_000_000,
        nanos / 1_000_000_000 <= u32::MAX ==> nanos / 1_000_000_000 <= counted_secs(nanos)
            <= nanos / 1_000_000_000 + 1,
        nanos / 1_000_000_000 >= u32::MAX ==> counted_secs(nanos) == u32::MAX,
        counted_secs(nanos) <= u32::MAX,
{
    let secs = nanos / 1_000_000_000;
    law_whole_secs(nanos);
    if secs > 0 {
        lemma_top_power(secs);
        if secs < 0x100_0000 {
            reveal_with_fuel(top_power, 24);
            lemma_top_power_below(secs, 0x80_0000);
        }
    }
}

/// Below twice a power of two no greater power is reached.
proof fn lemma_top_power_below(n: nat, power: nat)
    requires
        0 < n < 2 * power,
        top_power(power) == power,
    ensures
        top_power(n) <= power,
    decreases n,
{
    if n >= 2 {
        lemma_top_power_below(n / 2, power / 2);
    }
}

/// Whether `text` tells `nanos` in minutes and seconds, with `k` digits of minutes: the
/// digits, the letter m, the gap, two digits of seconds and the letter s. Read as numbers,
/// sixty times the minutes and the seconds make the whole seconds of the time.
pub open spec fn tells_minutes(text: Seq<char>, gap: Seq<char>, nanos: nat, k: int) -> bool {
    let from = k + 1 + gap.len();
    let mins = text.take(k);
    let secs = text.subrange(from, from + 2);
    let total = 60 * digits_value(mins) + digits_value(secs);
    let whole = nanos / 1_000_000_000;
    &&& 0 < k
    &&& text.len() == from + 3
    &&& all_digits(mins) && (k > 1 ==> text[0] != '0')
    &&& text[k] == 'm'
    &&& text.subrange(k + 1, from) == gap
    &&& all_digits(secs) && digits_value(secs) < 60
    &&& text.last() == 's'
    &&& whole < 0x100_0000 ==> total == whole
    &&& whole <= u32::MAX ==> whole <= total <= whole + 1
    &&& whole >= u32::MAX ==> total == u32::MAX
}

/// Whether `text`, read as a time, tells `nanos`: to the nearest tenth of a second below a
/// second, to the nearest second below a minute, where a half counts as one more, and in
/// minutes and whole seconds from there on.
pub open spec fn tells_time(text: Seq<char>, gap: Seq<char>, nanos: nat) -> bool {
    if nanos < 1_000_000_000 {
        let tenths = 10 * digits_value(text.take(1)) + digits_value(text.subrange(2, 3));
        &&& text.len() == 4
        &&& all_digits(text.take(1)) && text[1] == '.' && all_digits(text.subrange(2, 3))
        &&& text[3] == 's'
        &&& nanos <= tenths * 100_000_000 + 50_000_000
        &&& tenths * 100_000_000 <= nanos + 50_000_000
    } else if nanos < 60_000_000_000 {
        let secs = digits_value(text.drop_last());
        &&& text.len() > 1
        &&& all_digits(text.drop_last()) && text[0] != '0'
        &&& text.last() == 's'
        &&& secs * 1_000_000_000 <= nanos + 500_000_000 < (secs + 1) * 1_000_000_000
    } else {
        exists|k: int| #[trigger] tells_minutes(text, gap, nanos, k)
    }
}

/// A time in text, read as a time, tells the time.
pub proof fn law_duration_reads_back(nanos: nat, gap: Seq<char>)
    ensures
        tells_time(duration_text(nanos, gap), gap, nanos),
{
    reveal_strlit(".");
    reveal_strlit("m");
    reveal_strlit("s");
    let t = duration_text(nanos, gap);
    if nanos < 1_000_000_000 {
        let tenths = rounded_tenths(nanos);
        law_decimal_reads_back(tenths / 10);
        law_decimal_reads_back(tenths % 10);
        assert(t.take(1) == decimal(tenths / 10));
        assert(t.subrange(2, 3) == decimal(tenths % 10));
    } else if nanos < 60_000_000_000 {
        let secs = rounded_secs(nanos);
        law_decimal_reads_back(secs);
        assert(t.drop_last() == decimal(secs));
    } else {
        let secs = counted_secs(nanos);
        let mins = decimal(secs / 60);
        let k = mins.len() as int;
        let from = k + 1 + gap.len();
        let two = two_digits(secs % 60);
        law_counted_secs(nanos);
        law_decimal_reads_back(secs / 60);
        assert(t.take(k) == mins);
        assert(t.subrange(k + 1, from) == gap);
        assert(t.subrange(from, from + 2) == two);
        lemma_two_digits_read_back(secs % 60);
        assert(tells_minutes(t, gap, nanos, k));
    }
}

proof fn lemma_two_digits_read_back(n: nat)
    requires
        n < 100,
    ensures
        all_digits(two_digits(n)),
        digits_value(two_digits(n)) == n,
{
    let two = two_digits(n);
    let one = two.drop_last();
    assert(one == seq![digit_char(n / 10)]);
    assert(one.drop_last() == Seq::<char>::empty());
    assert(digits_value(Seq::<char>::empty()) == 0);
    assert(digits_value(one) == n / 10);
}

/// A half tenth of a second goes the way of the double that is nearest to it.
pub proof fn law_half_tenths(tenths: nat)
    requires
        tenths < 10,
    ensures
        ({
            let up = tenths == 0 || tenths == 4 || tenths == 5 || tenths == 6 || tenths == 7;
            rounded_tenths(tenths * 100_000_000 + 50_000_000) == if up {
                tenths + 1
            } else {
                tenths
            }
        }),
{
}

/// A time in text holds no control character where the gap holds none.
pub proof fn law_duration_text(nanos: nat, gap: Seq<char>)
    requires
        control_free(gap),
    ensures
        control_free(duration_text(nanos, gap)),
{
    reveal_strlit(".");
    reveal_strlit("m");
    reveal_strlit("s");
    let tenths = rounded_tenths(nanos);
    let secs = counted_secs(nanos);
    lemma_decimal_control_free(tenths / 10);
    lemma_decimal_control_free(tenths % 10);
    lemma_decimal_control_free(rounded_secs(nanos));
    lemma_decimal_control_free(secs / 60);
    lemma_control_free_add(decimal(tenths / 10), "."@);
    lemma_control_free_add(decimal(tenths / 10) + "."@, decimal(tenths % 10));
    lemma_control_free_add(decimal(tenths / 10) + "."@ + decimal(tenths % 10), "s"@);
    lemma_control_free_add(decimal(rounded_secs(nanos)), "s"@);
    lemma_control_free_add(decimal(secs / 60), "m"@);
    lemma_control_free_add(decimal(secs / 60) + "m"@, gap);
    lemma_control_free_add(decimal(secs / 60) + "m"@ + gap, two_digits(secs % 60));
    lemma_control_free_add(decimal(secs / 60) + "m"@ + gap + two_digits(secs % 60), "s"@);
}

} // verus!
