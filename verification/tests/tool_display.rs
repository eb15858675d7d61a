//! Labels, previews and durations.
use thclaws_hud::json::{Json, Member};
use thclaws_hud::redaction::{redact_json_value, redact_secrets, redaction_patterns};
use thclaws_hud::session_hud::format_session_heartbeat;
use thclaws_hud::time::Duration;
use thclaws_hud::tool_display::{
    format_duration, format_duration_with, format_tool_heartbeat, preview, sanitize_label_field, shorten,
    tool_label, truncate, PREVIEW_CAP,
};

fn text(s: &str) -> Json {
    Json::Text(s.to_string())
}

fn object(members: Vec<(&str, Json)>) -> Json {
    Json::Object(
        members
            .into_iter()
            .map(|(key, value)| Member {
                key: key.to_string(),
                value,
            })
            .collect(),
    )
}

fn input(key: &str, value: &str) -> Json {
    object(vec![(key, text(value))])
}

/// The texts in a value, keys among them.
fn all_text(value: &Json) -> String {
    match value {
        Json::Null => "null".to_string(),
        Json::Bool(b) => b.to_string(),
        Json::Number(n) => n.clone(),
        Json::Text(s) => s.clone(),
        Json::Array(items) => items.iter().map(all_text).collect::<Vec<_>>().join(","),
        Json::Object(members) => members
            .iter()
            .map(|m| format!("{}:{}", m.key, all_text(&m.value)))
            .collect::<Vec<_>>()
            .join(","),
    }
}

// labels

#[test]
fn label_bash_command() {
    let label = tool_label("Bash", &input("command", "cargo test -p thclaws-core"));
    assert!(label.starts_with("Bash ("));
    assert!(label.contains("cargo test"));
}

#[test]
fn label_bash_truncation() {
    let long = "x".repeat(200);
    let label = tool_label("Bash", &input("command", &long));
    assert!(label.contains('…'));
    let inner = label
        .strip_prefix("Bash (")
        .unwrap()
        .strip_suffix(')')
        .unwrap();
    assert!(inner.chars().count() <= PREVIEW_CAP + 1);
}

#[test]
fn label_read_path() {
    let label = tool_label("Read", &input("path", "src/main.rs"));
    assert_eq!(label, "Read (src/main.rs)");
}

#[test]
fn label_edit_path() {
    let label = tool_label("Edit", &input("path", "crates/core/src/repl.rs"));
    assert_eq!(label, "Edit (crates/core/src/repl.rs)");
}

#[test]
fn label_grep_pattern() {
    let label = tool_label("Grep", &input("pattern", "ToolCallStart"));
    assert_eq!(label, "Grep (ToolCallStart)");
}

#[test]
fn label_webfetch_url() {
    let label = tool_label("WebFetch", &input("url", "https://example.com/api/v1/data"));
    assert!(label.starts_with("WebFetch ("));
    assert!(label.contains("example.com"));
}

#[test]
fn label_task_agent() {
    let label = tool_label("Task", &input("agent", "dev-glm"));
    assert_eq!(label, "Task (agent=dev-glm)");
}

#[test]
fn label_unknown_tool() {
    let label = tool_label("FancyTool", &object(vec![]));
    assert_eq!(label, "FancyTool");
}

#[test]
fn label_fallback_on_missing_field() {
    let label = tool_label("Bash", &object(vec![]));
    assert_eq!(label, "Bash");
}

#[test]
fn label_ask_user_question() {
    let label = tool_label(
        "AskUserQuestion",
        &input("question", "Which library should we use?"),
    );
    assert!(label.starts_with("AskUserQuestion ("));
    assert!(label.contains("Which library"));
}

#[test]
fn label_skill_name() {
    let label = tool_label("Skill", &input("name", "prp-plan"));
    assert_eq!(label, "Skill (prp-plan)");
}

#[test]
fn label_websearch_query() {
    let label = tool_label("WebSearch", &input("query", "rust tokio select"));
    assert_eq!(label, "WebSearch (rust tokio select)");
}

#[test]
fn label_of_each_remaining_tool() {
    assert_eq!(tool_label("Write", &input("path", "a b")), "Write (a b)");
    assert_eq!(tool_label("Glob", &input("pattern", "*.rs")), "Glob (*.rs)");
    assert_eq!(tool_label("Glob", &input("path", "*.rs")), "Glob");
    assert_eq!(tool_label("bash", &input("command", "ls")), "bash");
}

#[test]
fn label_only_shows_text_fields() {
    assert_eq!(
        tool_label("Bash", &object(vec![("command", Json::Number("1".to_string()))])),
        "Bash"
    );
    assert_eq!(tool_label("Bash", &object(vec![("command", Json::Null)])), "Bash");
    assert_eq!(tool_label("Bash", &text("command")), "Bash");
    assert_eq!(tool_label("Bash", &Json::Array(vec![text("ls")])), "Bash");
    assert_eq!(
        tool_label(
            "Bash",
            &object(vec![("x", Json::Bool(true)), ("command", text("ls")), ("y", text("no"))])
        ),
        "Bash (ls)"
    );
}

#[test]
fn label_without_anything_to_show() {
    assert_eq!(tool_label("Bash", &input("command", " \n ")), "Bash");
    assert_eq!(tool_label("Bash", &input("command", "")), "Bash");
    assert_eq!(tool_label("Task", &input("agent", "")), "Task (agent=)");
}

#[test]
fn labels_redact_non_bash_fields() {
    let web = tool_label("WebFetch", &input("url", "https://example.com/?token=abc"));
    let grep = tool_label("Grep", &input("pattern", "API_KEY=secret"));
    let question = tool_label(
        "AskUserQuestion",
        &input("question", "Use Authorization: Bearer sk-123?"),
    );
    assert!(web.contains("token=<redacted>"));
    assert!(grep.contains("API_KEY=<redacted>"));
    assert!(question.contains("Bearer <redacted>"));
    assert!(!web.contains("abc"));
    assert!(!grep.contains("secret"));
    assert!(!question.contains("sk-123"));
}

#[test]
fn label_makes_a_line_without_cursor_control() {
    let label = tool_label("Bash", &input("command", "a\r\x1b[2Kb\n\tc\u{85}d"));
    assert_eq!(label, "Bash (a [2Kb c d)");
    let line = format_session_heartbeat(
        Duration::from_secs(1),
        Some((label.as_str(), Duration::from_secs(2))),
    );
    assert_eq!(line, "[⏱ 1s · tool: Bash (a [2Kb c d) 2s]");
    assert!(!line.chars().any(|c| c.is_control()));
}

// redaction

#[test]
fn redact_token() {
    let result = redact_secrets("curl -H token=abc123 https://api.example.com");
    assert!(result.contains("token=<redacted>"));
    assert!(!result.contains("abc123"));
}

#[test]
fn redact_bearer() {
    let result = redact_secrets("Authorization: Bearer sk-12345");
    assert!(result.contains("Authorization: Bearer <redacted>"));
    assert!(!result.contains("sk-12345"));
}

#[test]
fn redact_api_key() {
    let result = redact_secrets("api_key=deadbeef123&other=val");
    assert!(result.contains("api_key=<redacted>"));
    assert!(!result.contains("deadbeef"));
    assert!(result.contains("&other=val"));
}

#[test]
fn redact_case_insensitive_and_cli_flags() {
    let result = redact_secrets("TOKEN=abc --token def --api-key=ghi authorization:bearer jkl");
    assert!(result.contains("TOKEN=<redacted>"));
    assert!(result.contains("--token <redacted>"));
    assert!(result.contains("--api-key=<redacted>"));
    assert!(result.contains("authorization:bearer <redacted>"));
    assert!(!result.contains("abc"));
    assert!(!result.contains("def"));
    assert!(!result.contains("ghi"));
    assert!(!result.contains("jkl"));
}

#[test]
fn redact_preserves_normal_text() {
    let input = "cargo test --no-run";
    assert_eq!(redact_secrets(input), input);
}

#[test]
fn redact_leaves_words_that_only_begin_like_a_secret() {
    let input = "secretary tokens password-less bearers";
    assert_eq!(redact_secrets(input), input);
}

#[test]
fn redact_ends_at_space_semicolon_and_ampersand() {
    assert_eq!(
        redact_secrets("token=a;password=b&secret=c apikey=d api-key=e"),
        "token=<redacted>;password=<redacted>&secret=<redacted> apikey=<redacted> \
         api-key=<redacted>"
    );
    assert_eq!(
        redact_secrets("--secret x --password=y --api_key\tz"),
        "--secret <redacted> --password=<redacted> --api_key\t<redacted>"
    );
    assert_eq!(redact_secrets("a bearer  b c"), "a bearer  <redacted> c");
}

#[test]
fn redaction_rules_are_those_of_the_regex_crate() {
    let patterns = redaction_patterns();
    assert_eq!(patterns.len(), 4);
    assert_eq!(
        patterns[0].regex,
        r"(?i)\b(authorization\s*:\s*bearer\s+)[^\s;&]+"
    );
    assert_eq!(patterns[1].regex, r"(?i)\b(bearer\s+)[^\s;&]+");
    assert_eq!(
        patterns[2].regex,
        r"(?i)(--(?:api-key|api_key|token|password|secret)(?:=|\s+))[^\s;&]+"
    );
    assert_eq!(
        patterns[3].regex,
        r"(?i)\b(api[_-]?key|apikey|token|password|secret)=([^\s;&]+)"
    );
    for sample in [
        "Authorization :\tBEARER x;y token=1 --secret=2",
        "bearer bearer bearer",
        "--token --token a=b secret=",
        "",
        "no secrets here",
    ] {
        let mut out = sample.to_string();
        for p in &patterns {
            let re = regex::Regex::new(p.regex).unwrap();
            out = re.replace_all(&out, p.replacement).into_owned();
        }
        assert_eq!(redact_secrets(sample), out);
    }
}

/// Announcements of a secret, each of which ends where the value begins.
const HEADS: [&str; 28] = [
    "authorization:bearer ", "Authorization : BEARER\t", "AUTHORIZATION \n:\u{a0} bearer \u{3000}",
    "bearer ", "BeArEr \n\t", "bearer\u{2028}", "--api-key ", "--api_key=", "--token ", "--TOKEN=",
    "--password\t ", "--Secret=", "--api-key=", "--token=", "--password=", "--secret  ", "--api_KEY ",
    "api_key=", "api-key=", "apikey=", "API_KEY=", "token=", "ToKeN=", "password=", "secret=",
    "SECRET=", "Api-Key=", "apiKEY=",
];

#[test]
fn redact_replaces_the_value_of_each_announced_secret() {
    let values = ["x", "é=<redacted>", "bearer", "token=a:b,c?d\u{0}${1}"];
    for head in HEADS {
        for value in values {
            let text = format!("{head}{value}");
            assert_eq!(redact_secrets(&text), format!("{head}<redacted>"), "{text:?}");
        }
    }
    for value in values {
        for cap in [0, 3, 12, 60] {
            let shown = preview(&format!("--token {value}"), cap);
            assert_eq!(shown, shorten("--token <redacted>", cap));
        }
    }
    for head in ["--token ", "--secret=", "authorization: bearer ", "bearer ", "api-key="] {
        for value in ["--token=x", "authorization:bearer", "a--secret=", "\u{17f}ecret=1"] {
            assert_eq!(redact_secrets(&format!("{head}{value}")), format!("{head}<redacted>"));
        }
    }
    for head in ["\u{17f}ecret=", "--pa\u{17f}\u{17f}word ", "api_\u{212a}ey=", "--api-\u{212a}EY="] {
        assert_eq!(redact_secrets(&format!("{head}v")), format!("{head}<redacted>"));
    }
    assert_eq!(
        tool_label("Bash", &input("command", "--token abc")),
        "Bash (--token <redacted>)"
    );
}

#[test]
fn parts_between_semicolons_and_ampersands_are_redacted_by_themselves() {
    let parts = ["token=a", "b", "", "bearer x", "authorization: bearer", " y", "--secret", "=z tok", "en=1"];
    let alone: Vec<String> = parts.iter().map(|p| redact_secrets(p)).collect();
    for (i, a) in parts.iter().enumerate() {
        for (j, b) in parts.iter().enumerate() {
            let c = if (i + j) % 2 == 0 { ';' } else { '&' };
            let whole = redact_secrets(&format!("{a}{c}{b}"));
            assert_eq!(whole, format!("{}{c}{}", alone[i], alone[j]));
        }
    }
}

#[test]
fn the_flag_rule_leaves_an_assigned_secret_assigned() {
    let p = redaction_patterns()[2];
    let re = regex::Regex::new(p.regex).unwrap();
    for head in ["token=", "API-KEY=", "secret="] {
        for value in ["x", "--token=y", "a--secret=b=c", "--", "--password"] {
            let text = format!("{head}{value}");
            let r = re.replace_all(&text, p.replacement);
            let left = r.strip_prefix(head).unwrap();
            assert!(!left.is_empty());
            assert!(!left.chars().any(|c| c.is_whitespace() || c == ';' || c == '&'));
        }
    }
}

#[test]
fn each_rule_needs_its_literals_and_replaces_a_whole_match() {
    let patterns = redaction_patterns();
    let replaced = |n: usize, text: &str| {
        regex::Regex::new(patterns[n].regex)
            .unwrap()
            .replace_all(text, patterns[n].replacement)
            .into_owned()
    };
    for head in HEADS {
        let lower = head.to_lowercase();
        let rules: &[usize] = if lower.starts_with("authorization") {
            &[0, 1]
        } else if lower.starts_with("bearer") {
            &[1]
        } else if lower.starts_with("--") && head.ends_with('=') {
            &[2, 3]
        } else if lower.starts_with("--") {
            &[2]
        } else {
            &[3]
        };
        for n in 0..4 {
            let text = format!("{head}v=--w");
            if rules.contains(&n) {
                assert_eq!(replaced(n, &text), format!("{head}<redacted>"));
            }
        }
    }
    for text in [
        "authorization: basic x", "authorization:bearer", "bearer x", "bearer: x y",
        "bearer authorization:bearer",
    ] {
        assert_eq!(replaced(0, text), text);
    }
    for text in ["bearer", "bearer: x", "bearer=x", "forbearer"] {
        assert_eq!(replaced(1, text), text);
    }
    for text in ["-token x", "token x", "- -secret y", "--no-run x", "--tokens x", "--token"] {
        assert_eq!(replaced(2, text), text);
    }
    for text in ["token x", "secret: y", "password", "a=b", "tokens=c"] {
        assert_eq!(replaced(3, text), text);
    }
}

#[test]
fn redact_json_value_redacts_nested_strings() {
    let redacted = redact_json_value(&object(vec![
        ("command", text("curl -H 'Authorization: Bearer sk-123'")),
        (
            "nested",
            object(vec![("url", text("https://example.com/?token=abc"))]),
        ),
        (
            "todos",
            Json::Array(vec![object(vec![
                ("content", text("normal task")),
                ("status", text("pending")),
            ])]),
        ),
    ]));
    let todos = match redacted.get("todos") {
        Some(Json::Array(items)) => items,
        _ => panic!("todos is no array"),
    };
    assert_eq!(todos[0].get("content").unwrap().as_str(), Some("normal task"));
    assert!(!all_text(&redacted).contains("sk-123"));
    assert!(!all_text(&redacted).contains("token=abc"));
}

#[test]
fn redact_json_value_keeps_shape_keys_and_other_values() {
    let value = object(vec![
        ("token=key", Json::Number("1.50".to_string())),
        ("b", Json::Bool(true)),
        ("n", Json::Null),
        ("list", Json::Array(vec![Json::Null, text("secret=x"), Json::Array(vec![])])),
    ]);
    let redacted = redact_json_value(&value);
    assert_eq!(
        all_text(&redacted),
        "token=key:1.50,b:true,n:null,list:null,secret=<redacted>,"
    );
}

// sanitization and previews

#[test]
fn sanitize_strips_control_chars() {
    let result = sanitize_label_field("hello\nworld\ttab");
    assert_eq!(result, "hello world tab");
}

#[test]
fn sanitize_tidies_spaces_and_is_idempotent() {
    assert_eq!(sanitize_label_field(""), "");
    assert_eq!(sanitize_label_field(" \r\n\t "), "");
    assert_eq!(sanitize_label_field("  a \u{1b}\u{0} b\u{2003}\u{3000}c  "), "a b c");
    for s in ["  x  y ", "a", "\u{7f}a\u{9f}b", "é ü\u{a0}ß"] {
        let once = sanitize_label_field(s);
        assert_eq!(sanitize_label_field(&once), once);
        let kept: String = s.chars().filter(|c| !c.is_control() && !c.is_whitespace()).collect();
        assert_eq!(once.replace(' ', ""), kept);
    }
}

#[test]
fn sanitize_agrees_with_unicode_on_every_character() {
    for n in 0..=0x10ffffu32 {
        if let Some(c) = char::from_u32(n) {
            let separates = c.is_control() || c.is_whitespace();
            assert_eq!(thclaws_hud::text::is_control(c), c.is_control(), "{n:x}");
            assert_eq!(thclaws_hud::text::is_whitespace(c), c.is_whitespace(), "{n:x}");
            if n < 0x3100 {
                let r = sanitize_label_field(&format!("a{c}b"));
                assert_eq!(r == "a b", separates, "{n:x}");
            }
        }
    }
}

#[test]
fn truncate_counts_characters() {
    assert_eq!(truncate("añb", 3), "añb");
    assert_eq!(truncate("añbc", 3), "añb…");
    assert_eq!(truncate("abc", 0), "…");
    assert_eq!(truncate("", 0), "");
}

#[test]
fn preview_redacts_then_tidies_then_cuts() {
    assert_eq!(preview("  token=abcdef \n x", 60), "token=<redacted> x");
    assert_eq!(preview("token=abcdef", 8), "token=<r…");
    assert_eq!(preview("a b c", 2), "a …");
    assert_eq!(preview("a \n\t b", 60), "a b");
}

// durations

#[test]
fn format_duration_sub_second() {
    assert_eq!(format_duration(Duration::from_millis(300)), "0.3s");
}

#[test]
fn format_duration_seconds() {
    assert_eq!(format_duration(Duration::from_secs(42)), "42s");
}

#[test]
fn format_duration_minutes_seconds() {
    assert_eq!(format_duration(Duration::from_secs(72)), "1m12s");
}

#[test]
fn format_duration_at_the_edges() {
    assert_eq!(format_duration(Duration::from_millis(0)), "0.0s");
    assert_eq!(format_duration(Duration::from_millis(950)), "0.9s");
    assert_eq!(format_duration(Duration::from_millis(960)), "1.0s");
    assert_eq!(format_duration(Duration::from_secs(1)), "1s");
    assert_eq!(format_duration(Duration::from_millis(1499)), "1s");
    assert_eq!(format_duration(Duration::from_millis(1500)), "2s");
    assert_eq!(format_duration(Duration::from_millis(59_499)), "59s");
    assert_eq!(format_duration(Duration::from_millis(59_500)), "60s");
    assert_eq!(format_duration(Duration::from_secs(60)), "1m00s");
    assert_eq!(format_duration(Duration::from_millis(71_999)), "1m11s");
    assert_eq!(format_duration_with(Duration::from_secs(72), " "), "1m 12s");
}

/// The same text by way of double-precision seconds.
fn by_double(d: std::time::Duration) -> String {
    let total_secs = d.as_secs_f64();
    if total_secs < 1.0 {
        format!("{:.1}s", total_secs)
    } else if total_secs < 60.0 {
        format!("{}s", total_secs.round() as u32)
    } else {
        let mins = total_secs as u32 / 60;
        let secs = total_secs as u32 % 60;
        format!("{mins}m{secs:02}s")
    }
}

#[test]
fn format_duration_agrees_with_double_precision() {
    let nanos = [
        0u32, 1, 49_999_999, 50_000_000, 50_000_001, 149_999_999, 150_000_000, 150_000_001,
        250_000_000, 350_000_000, 450_000_000, 499_999_999, 500_000_000, 500_000_001, 550_000_000,
        650_000_000, 750_000_000, 850_000_000, 949_999_999, 950_000_000, 950_000_001, 999_999_700,
        999_999_761, 999_999_762, 999_999_880, 999_999_881, 999_999_940, 999_999_941, 999_999_970,
        999_999_971, 999_999_985, 999_999_986, 999_999_992, 999_999_993, 999_999_996, 999_999_997,
        999_999_998, 999_999_999,
    ];
    let mut secs: Vec<u64> = vec![0, 1, 2, 58, 59, 60, 61, 119, 120, 3599, 3600, u64::MAX];
    for k in 6..64 {
        for around in [0u64, 1, 2] {
            secs.push((1u64 << k) - around);
            secs.push((1u64 << k) + around);
        }
    }
    for s in secs {
        for n in nanos {
            let d = std::time::Duration::new(s, n);
            let own = Duration::from_nanos(d.as_nanos());
            assert_eq!(format_duration(own), by_double(d), "{s} s {n} ns");
        }
    }
    for ms in 0..1000u64 {
        let d = std::time::Duration::from_millis(ms);
        assert_eq!(format_duration(Duration::from_millis(ms)), by_double(d));
    }
}

#[test]
fn format_tool_heartbeat_text() {
    let text = format_tool_heartbeat("Bash (sleep 60)", Duration::from_secs(45));
    assert!(text.contains("still running"));
    assert!(text.contains("45s"));
    assert_eq!(text, "[tool: Bash (sleep 60)] still running 45s");
}
