//! The commands for the line on the tmux border.
use thclaws_hud::tmux_hud::{
    captured_output, captured_text, restore_window_option, Setup, TmuxHud,
};

fn words(list: &[&str]) -> Vec<String> {
    list.iter().map(|s| s.to_string()).collect()
}

fn finished(s: Setup) -> (TmuxHud, Vec<Vec<String>>) {
    match s {
        Setup::Finished { hud, remaining } => (hud, remaining),
        other => panic!("not finished: {other:?}"),
    }
}

#[test]
fn outside_of_tmux_there_is_no_line() {
    let s = TmuxHud::setup(false);
    assert!(s.command().is_none());
    let (mut hud, remaining) = finished(s);
    assert!(!hud.is_active());
    assert!(remaining.is_empty());
    assert!(hud.update("42s").is_empty());
    assert!(hud.restore().is_empty());
}

#[test]
fn setup_asks_then_sets() {
    let s = TmuxHud::setup(true);
    assert_eq!(s.command().unwrap(), words(&["show-options", "-wv", "pane-border-status"]));
    let s = s.advance(true, b"bottom\n");
    assert_eq!(s.command().unwrap(), words(&["show-options", "-wv", "pane-border-format"]));
    let s = s.advance(true, b"\n");
    assert_eq!(
        s.command().unwrap(),
        words(&["set-option", "-w", "pane-border-status", "top"])
    );
    let s = s.advance(true, b"");
    assert_eq!(
        s.command().unwrap(),
        words(&["set-option", "-w", "pane-border-format", "#{@thclaws_hud}"])
    );
    let s = s.advance(true, b"");
    assert!(s.command().is_none());
    let (mut hud, remaining) = finished(s);
    assert!(hud.is_active());
    assert!(remaining.is_empty());
    assert_eq!(hud.prev_status.as_deref(), Some("bottom"));
    assert_eq!(hud.prev_format.as_deref(), Some(""));

    assert_eq!(
        hud.update("⏱ 42s"),
        vec![
            words(&["set-option", "-p", "@thclaws_hud", " ⏱ 42s "]),
            words(&["refresh-client"]),
        ]
    );
    assert_eq!(
        hud.restore(),
        vec![
            words(&["set-option", "-w", "pane-border-status", "bottom"]),
            words(&["set-option", "-wu", "pane-border-format"]),
            words(&["set-option", "-pu", "@thclaws_hud"]),
            words(&["refresh-client"]),
        ]
    );
    assert!(!hud.is_active());
    assert!(hud.restore().is_empty());
    assert!(hud.update("x").is_empty());
}

#[test]
fn failed_setup_puts_back_what_was_there() {
    let undo = vec![
        words(&["set-option", "-wu", "pane-border-status"]),
        words(&["set-option", "-w", "pane-border-format", " #P "]),
        words(&["set-option", "-pu", "@thclaws_hud"]),
        words(&["refresh-client"]),
    ];
    let s = TmuxHud::setup(true)
        .advance(true, b"\n")
        .advance(true, b" #P \n")
        .advance(false, b"");
    let (hud, remaining) = finished(s);
    assert!(!hud.is_active());
    assert_eq!(remaining, undo);

    let s = TmuxHud::setup(true)
        .advance(true, b"\n")
        .advance(true, b" #P \n")
        .advance(true, b"")
        .advance(false, b"");
    let (hud, remaining) = finished(s);
    assert!(!hud.is_active());
    assert_eq!(remaining, undo);
}

#[test]
fn failure_to_ask_ends_the_setup_with_nothing_changed() {
    let s = TmuxHud::setup(true).advance(false, b"top\n");
    assert!(s.command().is_none());
    let (hud, remaining) = finished(s);
    assert!(!hud.is_active());
    assert!(remaining.is_empty());

    let s = TmuxHud::setup(true).advance(true, b"top\n").advance(false, b"");
    assert!(s.command().is_none());
    let (hud, remaining) = finished(s);
    assert!(!hud.is_active());
    assert!(remaining.is_empty());
}

#[test]
fn window_option_is_restored_or_unset() {
    assert_eq!(
        restore_window_option("n", &Some("v w".to_string())),
        words(&["set-option", "-w", "n", "v w"])
    );
    assert_eq!(
        restore_window_option("n", &Some(String::new())),
        words(&["set-option", "-wu", "n"])
    );
    assert_eq!(restore_window_option("n", &None), words(&["set-option", "-wu", "n"]));
}

#[test]
fn output_loses_its_last_line_feed_only() {
    assert_eq!(captured_output(true, b"top\n"), Some("top".to_string()));
    assert_eq!(captured_output(true, b" #P \n"), Some(" #P ".to_string()));
    assert_eq!(captured_output(true, b"a\n\n"), Some("a\n".to_string()));
    assert_eq!(captured_output(true, b"\xff a\n"), Some("\u{fffd} a".to_string()));
    assert_eq!(captured_output(true, "é…".as_bytes()), Some("é…".to_string()));
    assert_eq!(captured_output(true, b"\n"), Some(String::new()));
    assert_eq!(captured_output(true, b""), Some(String::new()));
    assert_eq!(captured_output(false, b"top"), None);
    assert_eq!(captured_text(true, "\t x y \r\n"), Some("\t x y \r".to_string()));
    assert_eq!(captured_text(false, "x"), None);
}

/// Window options and pane options.
type Options = (Vec<(String, String)>, Vec<(String, String)>);

fn put(list: &mut Vec<(String, String)>, name: &str, value: Option<&str>) {
    list.retain(|(n, _)| n != name);
    if let Some(v) = value {
        list.push((name.to_string(), v.to_string()));
        list.sort();
    }
}

fn run(options: &mut Options, args: &[String]) {
    let args: Vec<&str> = args.iter().map(|a| a.as_str()).collect();
    match args.as_slice() {
        ["set-option", "-w", name, value] => put(&mut options.0, name, Some(value)),
        ["set-option", "-wu", name] => put(&mut options.0, name, None),
        ["set-option", "-p", name, value] => put(&mut options.1, name, Some(value)),
        ["set-option", "-pu", name] => put(&mut options.1, name, None),
        ["refresh-client"] => (),
        other => panic!("unknown command: {other:?}"),
    }
}

#[test]
fn options_return_to_what_they_were() {
    let pair = |n: &str, v: &str| (n.to_string(), v.to_string());
    let cases: Vec<(Options, &[u8], &[u8])> = vec![
        ((vec![], vec![pair("@x", "1")]), b"", b"\n"),
        ((vec![pair("pane-border-status", "off")], vec![]), b"off\n", b""),
        (
            (
                vec![pair("pane-border-format", " #P "), pair("pane-border-status", "bottom")],
                vec![],
            ),
            b"bottom\n",
            b" #P \n",
        ),
    ];
    for (before, status, format) in cases {
        for fails_at in [2usize, 3, 4] {
            let mut options = before.clone();
            let mut setup = TmuxHud::setup(true).advance(true, status).advance(true, format);
            let mut step = 2;
            while let Some(args) = setup.command() {
                let ok = step != fails_at;
                if ok {
                    run(&mut options, &args);
                }
                setup = setup.advance(ok, b"");
                step += 1;
            }
            let (mut hud, remaining) = finished(setup);
            assert_eq!(hud.is_active(), fails_at == 4);
            for args in &remaining {
                run(&mut options, args);
            }
            for text in ["1s", "2s"] {
                for args in &hud.update(text) {
                    run(&mut options, args);
                }
            }
            assert_eq!(options == before, fails_at != 4);
            for args in &hud.restore() {
                run(&mut options, args);
            }
            assert_eq!(options, before);
        }
    }
}
