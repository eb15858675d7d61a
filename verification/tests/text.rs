//! Characters, decimal numbers and JSON access.
use thclaws_hud::json::{Json, Member};
use thclaws_hud::redaction::redact_secrets;
use thclaws_hud::text::{
    chars_of, parse_u64, push_decimal, str_eq, string_of, to_ascii_lowercase, trim,
};
use thclaws_hud::tool_display::{label_field, label_with, shorten, tool_label};

fn member(key: &str, value: &str) -> Member {
    Member {
        key: key.to_string(),
        value: Json::Text(value.to_string()),
    }
}

#[test]
fn trim_removes_white_space_at_both_ends() {
    for s in ["", " ", "a", " a", "a ", "\u{a0}\u{2028}a b\u{3000}\n", "\u{0}a\u{1f}", "\u{200b}a"] {
        assert_eq!(trim(s), s.trim());
    }
}

#[test]
fn lower_case_changes_ascii_letters_only() {
    for s in ["", "HeartBeat", "AZ@[az", "ÀÉ", "K\u{212a}"] {
        assert_eq!(to_ascii_lowercase(s), s.to_ascii_lowercase());
    }
}

#[test]
fn decimal_numbers_read_back() {
    for n in [0u64, 1, 9, 10, 99, 100, 12345, u32::MAX as u64, u64::MAX - 1, u64::MAX] {
        let mut out = "=".to_string();
        push_decimal(&mut out, n);
        assert_eq!(out, format!("={n}"));
        assert_eq!(parse_u64(&out[1..]), Some(n));
        assert_eq!(parse_u64(&out), None);
    }
}

#[test]
fn strings_are_compared_and_cut_by_characters() {
    assert!(str_eq("é", "é"));
    assert!(!str_eq("e\u{301}", "é"));
    assert!(!str_eq("a", "ab"));
    let v = chars_of("aéb");
    assert_eq!(v, vec!['a', 'é', 'b']);
    assert_eq!(string_of(&v, 1, 3), "éb");
    assert_eq!(string_of(&v, 2, 2), "");
}

#[test]
fn member_of_an_object_is_the_first_with_the_key() {
    let v = Json::Object(vec![member("a", "1"), member("b", "2"), member("b", "3")]);
    assert_eq!(v.get("b").unwrap().as_str(), Some("2"));
    assert_eq!(v.text_field("a"), Some("1"));
    assert!(v.get("c").is_none());
    assert!(v.as_str().is_none());
    assert!(Json::Null.get("a").is_none());
    assert_eq!(Json::Bool(true).text_field("a"), None);
}

#[test]
fn plain_text_is_never_redacted() {
    for s in [
        "src/main.rs",
        "token secret password api_key",
        "authorization: none; beare r",
        "the bearer, bearer: both",
        "cargo test --no-run",
        "a=b --flag=c tokens=d secretary=e --tokens f --secret",
        "a-b - c",
        "",
    ] {
        assert_eq!(redact_secrets(s), s);
        let input = Json::Object(vec![member("path", s)]);
        assert_eq!(tool_label("Read", &input), label_with("Read", Some(s)));
    }
}

#[test]
fn label_with_shows_a_text_without_secrets() {
    assert_eq!(label_with("Bash", Some(" ls \n -l ")), "Bash (ls -l)");
    assert_eq!(label_with("Bash", Some("\t")), "Bash");
    assert_eq!(label_with("Bash", None), "Bash");
    assert_eq!(label_with("Task", Some("\t")), "Task (agent=)");
    assert_eq!(label_with("Task", None), "Task");
    let long = "y".repeat(61);
    assert_eq!(label_with("Other", Some(&long)), format!("Other ({}…)", "y".repeat(60)));
    assert_eq!(shorten("  a\u{7}b c", 3), "a b…");
    assert_eq!(label_field("Glob"), Some("pattern"));
    assert_eq!(label_field("glob"), None);
}
