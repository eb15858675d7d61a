//! The status line on the border of a tmux pane.
//!
//! tmux draws the border itself, so the line is live at all times and never meets
//! the output inside the pane. The line is an option of the pane, which the format
//! of the border shows:
//!
//! ```text
//! tmux set-option -w pane-border-status top
//! tmux set-option -w pane-border-format "#{@thclaws_hud}"
//! tmux set-option -p @thclaws_hud " 42s "
//! tmux refresh-client
//! ```
//!
//! A command is the list of the arguments that tmux is run with. This module says
//! which commands are to be run; the caller runs them.
use vstd::prelude::*;
use vstd::string::*;

use crate::text::{chars_of, string_of};

verus! {

/// The option of the pane that holds the line.
pub const HUD_OPTION: &'static str = "@thclaws_hud";

/// The border format that shows the option.
pub const HUD_FORMAT: &'static str = "#{@thclaws_hud}";

/// The window option for where the border text stands.
pub const BORDER_STATUS: &'static str = "pane-border-status";

/// The window option for what the border text is.
pub const BORDER_FORMAT: &'static str = "pane-border-format";

// ── commands ───────────────────────────────────────────────────────

/// The characters of each argument of a command.
pub open spec fn args_view(args: Seq<String>) -> Seq<Seq<char>> {
    args.map_values(|a: String| a@)
}

/// The characters of each argument of each command.
pub open spec fn commands_view(commands: Seq<Vec<String>>) -> Seq<Seq<Seq<char>>> {
    commands.map_values(|c: Vec<String>| args_view(c@))
}

/// The characters of a string that is there.
pub open spec fn option_view(s: Option<String>) -> Option<Seq<char>> {
    match s {
        Some(t) => Some(t@),
        None => None,
    }
}

/// Show a window option.
pub open spec fn show_window_option(name: Seq<char>) -> Seq<Seq<char>> {
    seq!["show-options"@, "-wv"@, name]
}

/// Set a window option.
pub open spec fn set_window_option(name: Seq<char>, value: Seq<char>) -> Seq<Seq<char>> {
    seq!["set-option"@, "-w"@, name, value]
}

/// Unset a window option.
pub open spec fn unset_window_option(name: Seq<char>) -> Seq<Seq<char>> {
    seq!["set-option"@, "-wu"@, name]
}

/// Set an option of the pane.
pub open spec fn set_pane_option(name: Seq<char>, value: Seq<char>) -> Seq<Seq<char>> {
    seq!["set-option"@, "-p"@, name, value]
}

/// Unset an option of the pane.
pub open spec fn unset_pane_option(name: Seq<char>) -> Seq<Seq<char>> {
    seq!["set-option"@, "-pu"@, name]
}

/// Redraw the client.
pub open spec fn refresh() -> Seq<Seq<char>> {
    seq!["refresh-client"@]
}

/// The command that gives a window option its former value, or unsets it where it
/// had none.
pub open spec fn restore_command(name: Seq<char>, prev: Option<Seq<char>>) -> Seq<Seq<char>> {
    match prev {
        Some(v) => if v.len() > 0 {
            set_window_option(name, v)
        } else {
            unset_window_option(name)
        },
        None => unset_window_option(name),
    }
}

/// The commands that show `text` on the border.
pub open spec fn update_commands(text: Seq<char>) -> Seq<Seq<Seq<char>>> {
    seq![set_pane_option(HUD_OPTION@, " "@ + text + " "@), refresh()]
}

/// The commands that put the border back.
pub open spec fn restore_commands(
    prev_status: Option<Seq<char>>,
    prev_format: Option<Seq<char>>,
) -> Seq<Seq<Seq<char>>> {
    seq![
        restore_command(BORDER_STATUS@, prev_status),
        restore_command(BORDER_FORMAT@, prev_format),
        unset_pane_option(HUD_OPTION@),
        refresh(),
    ]
}

/// A command of one argument.
fn command1(a: &str) -> (c: Vec<String>)
    ensures
        args_view(c@) == seq![a@],
{
    let c = vec![a.to_owned()];
    assert(args_view(c@) =~= seq![a@]);
    c
}

/// A command of three arguments.
fn command3(a: &str, b: &str, d: &str) -> (c: Vec<String>)
    ensures
        args_view(c@) == seq![a@, b@, d@],
{
    let c = vec![a.to_owned(), b.to_owned(), d.to_owned()];
    assert(args_view(c@) =~= seq![a@, b@, d@]);
    c
}

/// A command of four arguments.
fn command4(a: &str, b: &str, d: &str, e: &str) -> (c: Vec<String>)
    ensures
        args_view(c@) == seq![a@, b@, d@, e@],
{
    let c = vec![a.to_owned(), b.to_owned(), d.to_owned(), e.to_owned()];
    assert(args_view(c@) =~= seq![a@, b@, d@, e@]);
    c
}

/// The command that restores a window option: its former value, or unset, back to
/// the inherited default, where it had none.
pub fn restore_window_option(name: &str, prev: &Option<String>) -> (c: Vec<String>)
    ensures
        args_view(c@) == restore_command(name@, option_view(*prev)),
{
    match prev {
        Some(v) => if v.as_str().is_empty() {
            command3("set-option", "-wu", name)
        } else {
            command4("set-option", "-w", name, v.as_str())
        },
        None => command3("set-option", "-wu", name),
    }
}

// ── the line ───────────────────────────────────────────────────────

/// The line on the border, and what stood there before.
#[derive(Debug)]
pub struct TmuxHud {
    pub active: bool,
    pub prev_status: Option<String>,
    pub prev_format: Option<String>,
}

impl TmuxHud {
    /// A line that is not there.
    pub fn inactive() -> (hud: Self)
        ensures
            !hud.active,
            hud.prev_status is None,
            hud.prev_format is None,
    {
        TmuxHud { active: false, prev_status: None, prev_format: None }
    }

    /// Whether the line is shown.
    pub fn is_active(&self) -> (r: bool)
        ensures
            r == self.active,
    {
        self.active
    }

    /// The commands that show `text`. There are none where the line is not shown.
    pub fn update(&self, text: &str) -> (commands: Vec<Vec<String>>)
        ensures
            commands_view(commands@) == if self.active {
                update_commands(text@)
            } else {
                Seq::empty()
            },
    {
        if !self.active {
            let none: Vec<Vec<String>> = Vec::new();
            assert(commands_view(none@) =~= Seq::empty());
            return none;
        }
        let mut padded = String::new();
        padded.append(" ");
        padded.append(text);
        padded.append(" ");
        assert(padded@ == " "@ + text@ + " "@);
        let commands = vec![
            command4("set-option", "-p", HUD_OPTION, padded.as_str()),
            command1("refresh-client"),
        ];
        assert(commands_view(commands@) =~= update_commands(text@));
        commands
    }

    /// Take the line away. The commands put the border back; there are none where
    /// the line is not shown.
    pub fn restore(&mut self) -> (commands: Vec<Vec<String>>)
        ensures
            commands_view(commands@) == if old(self).active {
                restore_commands(option_view(old(self).prev_status), option_view(old(self).prev_format))
            } else {
                Seq::empty()
            },
            !final(self).active,
            final(self).prev_status == old(self).prev_status,
            final(self).prev_format == old(self).prev_format,
    {
        if !self.active {
            let none: Vec<Vec<String>> = Vec::new();
            assert(commands_view(none@) =~= Seq::empty());
            return none;
        }
        let commands = vec![
            restore_window_option(BORDER_STATUS, &self.prev_status),
            restore_window_option(BORDER_FORMAT, &self.prev_format),
            command3("set-option", "-pu", HUD_OPTION),
            command1("refresh-client"),
        ];
        assert(commands_view(commands@) =~= restore_commands(
            option_view(self.prev_status),
            option_view(self.prev_format),
        ));
        self.active = false;
        commands
    }
}

// ── replies ────────────────────────────────────────────────────────

/// The text of bytes that may not be UTF-8, as `String::from_utf8_lossy` reads
/// them.
pub uninterp spec fn lossy_text(bytes: Seq<u8>) -> Seq<char>;

/// `String::from_utf8_lossy` reads bytes as UTF-8, with replacement characters for
/// what is none. The result is named; of valid UTF-8 it is the text that the bytes
/// encode.
#[verifier::external_body]
fn from_utf8_lossy(bytes: &[u8]) -> (text: String)
    ensures
        text@ == lossy_text(bytes@),
        vstd::utf8::valid_utf8(bytes@) ==> text@ == vstd::utf8::decode_utf8(bytes@),
{
    String::from_utf8_lossy(bytes).into_owned()
}

/// The output of a command without the line feed at its end, where there is one.
pub open spec fn printed(output: Seq<char>) -> Seq<char> {
    if output.len() > 0 && output.last() == '\n' {
        output.drop_last()
    } else {
        output
    }
}

/// What a command has printed, given its output as text: nothing where the command
/// failed, else the output without its last line feed. White space that belongs to
/// the value stays.
pub open spec fn captured(ok: bool, output: Seq<char>) -> Option<Seq<char>> {
    if ok {
        Some(printed(output))
    } else {
        None
    }
}

/// What a command has printed, given its output as text.
pub fn captured_text(ok: bool, output: &str) -> (r: Option<String>)
    ensures
        option_view(r) == captured(ok, output@),
{
    if !ok {
        return None;
    }
    let v = chars_of(output);
    let end: usize = if v.len() > 0 && v[v.len() - 1] == '\n' {
        v.len() - 1
    } else {
        v.len()
    };
    let value = string_of(&v, 0, end);
    assert(value@ == printed(output@));
    Some(value)
}

/// What a command has printed, given its raw output.
pub fn captured_output(ok: bool, stdout: &[u8]) -> (r: Option<String>)
    ensures
        option_view(r) == captured(ok, lossy_text(stdout@)),
        vstd::utf8::valid_utf8(stdout@) ==> option_view(r) == captured(
            ok,
            vstd::utf8::decode_utf8(stdout@),
        ),
{
    captured_text(ok, from_utf8_lossy(stdout).as_str())
}

// ── setup ──────────────────────────────────────────────────────────

/// Where the setup of the line stands. The caller runs the command that
/// [`Setup::command`] gives, and hands the outcome to [`Setup::advance`].
#[derive(Debug)]
pub enum Setup {
    /// The former place of the border text is asked for.
    AskStatus,
    /// The former border text is asked for.
    AskFormat { prev_status: Option<String> },
    /// The border text is switched on.
    SetStatus { prev_status: Option<String>, prev_format: Option<String> },
    /// The border text is set.
    SetFormat { prev_status: Option<String>, prev_format: Option<String> },
    /// The setup is over. The remaining commands are still to be run.
    Finished { hud: TmuxHud, remaining: Vec<Vec<String>> },
}

/// What a [`Setup`] holds.
pub enum SetupView {
    AskStatus,
    AskFormat { prev_status: Option<Seq<char>> },
    SetStatus { prev_status: Option<Seq<char>>, prev_format: Option<Seq<char>> },
    SetFormat { prev_status: Option<Seq<char>>, prev_format: Option<Seq<char>> },
    Finished {
        active: bool,
        prev_status: Option<Seq<char>>,
        prev_format: Option<Seq<char>>,
        remaining: Seq<Seq<Seq<char>>>,
    },
}

impl View for Setup {
    type V = SetupView;

    open spec fn view(&self) -> SetupView {
        match self {
            Setup::AskStatus => SetupView::AskStatus,
            Setup::AskFormat { prev_status } => SetupView::AskFormat {
                prev_status: option_view(*prev_status),
            },
            Setup::SetStatus { prev_status, prev_format } => SetupView::SetStatus {
                prev_status: option_view(*prev_status),
                prev_format: option_view(*prev_format),
            },
            Setup::SetFormat { prev_status, prev_format } => SetupView::SetFormat {
                prev_status: option_view(*prev_status),
                prev_format: option_view(*prev_format),
            },
            Setup::Finished { hud, remaining } => SetupView::Finished {
                active: hud.active,
                prev_status: option_view(hud.prev_status),
                prev_format: option_view(hud.prev_format),
                remaining: commands_view(remaining@),
            },
        }
    }
}

/// A setup that is over without a line.
pub open spec fn without_line(remaining: Seq<Seq<Seq<char>>>) -> SetupView {
    SetupView::Finished { active: false, prev_status: None, prev_format: None, remaining }
}

impl SetupView {
    /// The command to run next.
    pub open spec fn command(self) -> Option<Seq<Seq<char>>> {
        match self {
            SetupView::AskStatus => Some(show_window_option(BORDER_STATUS@)),
            SetupView::AskFormat { .. } => Some(show_window_option(BORDER_FORMAT@)),
            SetupView::SetStatus { .. } => Some(set_window_option(BORDER_STATUS@, "top"@)),
            SetupView::SetFormat { .. } => Some(set_window_option(BORDER_FORMAT@, HUD_FORMAT@)),
            SetupView::Finished { .. } => None,
        }
    }

    /// Where the setup stands after the command: whether the command succeeded, and
    /// its output as text. There is no line where any command fails; a failure to set
    /// an option puts back what was changed, and before that nothing was.
    pub open spec fn next(self, ok: bool, output: Seq<char>) -> SetupView {
        match self {
            SetupView::AskStatus => if ok {
                SetupView::AskFormat { prev_status: captured(ok, output) }
            } else {
                without_line(Seq::empty())
            },
            SetupView::AskFormat { prev_status } => if ok {
                SetupView::SetStatus { prev_status, prev_format: captured(ok, output) }
            } else {
                without_line(Seq::empty())
            },
            SetupView::SetStatus { prev_status, prev_format } => if ok {
                SetupView::SetFormat { prev_status, prev_format }
            } else {
                without_line(restore_commands(prev_status, prev_format))
            },
            SetupView::SetFormat { prev_status, prev_format } => if ok {
                SetupView::Finished {
                    active: true,
                    prev_status,
                    prev_format,
                    remaining: Seq::empty(),
                }
            } else {
                without_line(restore_commands(prev_status, prev_format))
            },
            SetupView::Finished { .. } => self,
        }
    }
}

impl TmuxHud {
    /// Begin to set the line up. Outside of tmux there is nothing to do, and no
    /// line; nor is there one where any command of the setup fails.
    pub fn setup(in_tmux: bool) -> (s: Setup)
        ensures
            s@ == if in_tmux {
                SetupView::AskStatus
            } else {
                without_line(Seq::empty())
            },
    {
        if in_tmux {
            Setup::AskStatus
        } else {
            TmuxHud::not_set_up()
        }
    }

    /// The end of a setup that has changed nothing.
    fn not_set_up() -> (s: Setup)
        ensures
            s@ == without_line(Seq::empty()),
    {
        let none: Vec<Vec<String>> = Vec::new();
        assert(commands_view(none@) =~= Seq::empty());
        Setup::Finished { hud: TmuxHud::inactive(), remaining: none }
    }

    /// Give up the setup, with the commands that put back what was changed.
    fn abandon(prev_status: Option<String>, prev_format: Option<String>) -> (s: Setup)
        ensures
            s@ == without_line(restore_commands(option_view(prev_status), option_view(prev_format))),
    {
        let mut partial = TmuxHud { active: true, prev_status, prev_format };
        let remaining = partial.restore();
        Setup::Finished { hud: TmuxHud::inactive(), remaining }
    }
}

impl Setup {
    /// The command to run next. There is none when the setup is over.
    pub fn command(&self) -> (c: Option<Vec<String>>)
        ensures
            match c {
                Some(args) => self@.command() == Some(args_view(args@)),
                None => self@.command() is None,
            },
    {
        match self {
            Setup::AskStatus => Some(command3("show-options", "-wv", BORDER_STATUS)),
            Setup::AskFormat { .. } => Some(command3("show-options", "-wv", BORDER_FORMAT)),
            Setup::SetStatus { .. } => Some(command4("set-option", "-w", BORDER_STATUS, "top")),
            Setup::SetFormat { .. } => Some(
                command4("set-option", "-w", BORDER_FORMAT, HUD_FORMAT),
            ),
            Setup::Finished { .. } => None,
        }
    }

    /// Go on after the command, given whether it succeeded and its output as text.
    pub fn advance_with(self, ok: bool, output: &str) -> (s: Setup)
        ensures
            s@ == self@.next(ok, output@),
    {
        match self {
            Setup::AskStatus => if ok {
                Setup::AskFormat { prev_status: captured_text(ok, output) }
            } else {
                TmuxHud::not_set_up()
            },
            Setup::AskFormat { prev_status } => if ok {
                Setup::SetStatus { prev_status, prev_format: captured_text(ok, output) }
            } else {
                TmuxHud::not_set_up()
            },
            Setup::SetStatus { prev_status, prev_format } => if ok {
                Setup::SetFormat { prev_status, prev_format }
            } else {
                TmuxHud::abandon(prev_status, prev_format)
            },
            Setup::SetFormat { prev_status, prev_format } => if ok {
                let none: Vec<Vec<String>> = Vec::new();
                assert(commands_view(none@) =~= Seq::empty());
                Setup::Finished {
                    hud: TmuxHud { active: true, prev_status, prev_format },
                    remaining: none,
                }
            } else {
                TmuxHud::abandon(prev_status, prev_format)
            },
            Setup::Finished { hud, remaining } => Setup::Finished { hud, remaining },
        }
    }

    /// Go on after the command, given whether it succeeded and its raw output.
    pub fn advance(self, ok: bool, stdout: &[u8]) -> (s: Setup)
        ensures
            s@ == self@.next(ok, lossy_text(stdout@)),
            vstd::utf8::valid_utf8(stdout@) ==> s@ == self@.next(
                ok,
                vstd::utf8::decode_utf8(stdout@),
            ),
    {
        self.advance_with(ok, from_utf8_lossy(stdout).as_str())
    }
}

// ── laws ───────────────────────────────────────────────────────────

/// The options that tmux holds for the window and for the pane.
pub struct TmuxOptions {
    pub window: Map<Seq<char>, Seq<char>>,
    pub pane: Map<Seq<char>, Seq<char>>,
}

/// What a command does to the options.
pub open spec fn run(o: TmuxOptions, args: Seq<Seq<char>>) -> TmuxOptions {
    if args.len() == 4 && args[0] == "set-option"@ && args[1] == "-w"@ {
        TmuxOptions { window: o.window.insert(args[2], args[3]), ..o }
    } else if args.len() == 3 && args[0] == "set-option"@ && args[1] == "-wu"@ {
        TmuxOptions { window: o.window.remove(args[2]), ..o }
    } else if args.len() == 4 && args[0] == "set-option"@ && args[1] == "-p"@ {
        TmuxOptions { pane: o.pane.insert(args[2], args[3]), ..o }
    } else if args.len() == 3 && args[0] == "set-option"@ && args[1] == "-pu"@ {
        TmuxOptions { pane: o.pane.remove(args[2]), ..o }
    } else {
        o
    }
}

/// What commands do to the options, one after the other.
pub open spec fn run_all(o: TmuxOptions, commands: Seq<Seq<Seq<char>>>) -> TmuxOptions
    decreases commands.len(),
{
    if commands.len() == 0 {
        o
    } else {
        run(run_all(o, commands.drop_last()), commands.last())
    }
}

/// What showing texts on the border does to the options, one after the other.
pub open spec fn show_all(o: TmuxOptions, texts: Seq<Seq<char>>) -> TmuxOptions
    decreases texts.len(),
{
    if texts.len() == 0 {
        o
    } else {
        run_all(show_all(o, texts.drop_last()), update_commands(texts.last()))
    }
}

/// Whether `prev` tells what the window option is: its value, which is not empty,
/// or nothing where it is not set.
pub open spec fn tells(prev: Option<Seq<char>>, o: TmuxOptions, name: Seq<char>) -> bool {
    if o.window.contains_key(name) {
        o.window[name].len() > 0 && prev == Some(o.window[name])
    } else {
        prev matches Some(v) ==> v.len() == 0
    }
}

/// Whether `output` is what tmux prints of the window option: its value, which is not
/// empty, and a line feed; where it is not set, nothing or a line feed alone.
pub open spec fn shows(output: Seq<char>, o: TmuxOptions, name: Seq<char>) -> bool {
    if o.window.contains_key(name) {
        o.window[name].len() > 0 && output == o.window[name].push('\n')
    } else {
        output.len() == 0 || output == seq!['\n']
    }
}

/// What is captured of what tmux prints of a window option tells what the option is.
pub proof fn law_output_tells(o: TmuxOptions, name: Seq<char>, output: Seq<char>)
    requires
        shows(output, o, name),
    ensures
        tells(captured(true, output), o, name),
{
    if o.window.contains_key(name) {
        assert(output.drop_last() == o.window[name]);
    }
}

proof fn lemma_flags()
    ensures
        "-w"@ != "-wu"@,
        "-w"@ != "-p"@,
        "-w"@ != "-pu"@,
        "-wu"@ != "-p"@,
        "-wu"@ != "-pu"@,
        "-p"@ != "-pu"@,
        "set-option"@ != "refresh-client"@,
        BORDER_STATUS@ != BORDER_FORMAT@,
{
    reveal_strlit("-w");
    reveal_strlit("-wu");
    reveal_strlit("-p");
    reveal_strlit("-pu");
    reveal_strlit("set-option");
    reveal_strlit("refresh-client");
    reveal_strlit("pane-border-status");
    reveal_strlit("pane-border-format");
    assert("-w"@.len() == 2 && "-wu"@.len() == 3);
    assert("-p"@.len() == 2 && "-pu"@.len() == 3);
    assert("-w"@[1] == 'w' && "-p"@[1] == 'p');
    assert("-wu"@[1] == 'w' && "-pu"@[1] == 'p');
    assert("set-option"@[0] == 's' && "refresh-client"@[0] == 'r');
    assert(BORDER_STATUS@[12] == 's' && BORDER_FORMAT@[12] == 'f');
}

/// Showing texts changes nothing but the option of the pane.
proof fn lemma_show_all(o: TmuxOptions, texts: Seq<Seq<char>>)
    ensures
        show_all(o, texts).window == o.window,
        show_all(o, texts).pane.remove(HUD_OPTION@) == o.pane.remove(HUD_OPTION@),
    decreases texts.len(),
{
    if texts.len() > 0 {
        lemma_show_all(o, texts.drop_last());
        lemma_flags();
        let before = show_all(o, texts.drop_last());
        let cs = update_commands(texts.last());
        assert(cs.drop_last().drop_last() == Seq::<Seq<Seq<char>>>::empty());
        assert(cs.drop_last().last() == cs[0]);
        reveal_with_fuel(run_all, 3);
        assert(run_all(before, cs).pane == before.pane.insert(
            HUD_OPTION@,
            " "@ + texts.last() + " "@,
        ));
        assert(run_all(before, cs).pane.remove(HUD_OPTION@) =~= before.pane.remove(HUD_OPTION@));
    }
}

/// What putting the border back does to the options.
proof fn lemma_restore(
    o: TmuxOptions,
    prev_status: Option<Seq<char>>,
    prev_format: Option<Seq<char>>,
)
    ensures
        run_all(o, restore_commands(prev_status, prev_format)) == (TmuxOptions {
            window: run(
                run(o, restore_command(BORDER_STATUS@, prev_status)),
                restore_command(BORDER_FORMAT@, prev_format),
            ).window,
            pane: o.pane.remove(HUD_OPTION@),
        }),
{
    lemma_flags();
    let cs = restore_commands(prev_status, prev_format);
    let c3 = cs.drop_last();
    let c2 = c3.drop_last();
    let c1 = c2.drop_last();
    assert(c1.drop_last() == Seq::<Seq<Seq<char>>>::empty());
    assert(c1.last() == cs[0] && c2.last() == cs[1] && c3.last() == cs[2]);
    reveal_with_fuel(run_all, 5);
}

/// The window options come back, and the option of the pane goes, from a setup that
/// was told what the window options were, at any point of it.
proof fn lemma_options_return(
    before: TmuxOptions,
    prev_status: Option<Seq<char>>,
    prev_format: Option<Seq<char>>,
    texts: Seq<Seq<char>>,
)
    requires
        tells(prev_status, before, BORDER_STATUS@),
        tells(prev_format, before, BORDER_FORMAT@),
    ensures
        ({
            let half = run(before, set_window_option(BORDER_STATUS@, "top"@));
            let on = run(half, set_window_option(BORDER_FORMAT@, HUD_FORMAT@));
            let restore = restore_commands(prev_status, prev_format);
            let after = TmuxOptions {
                window: before.window,
                pane: before.pane.remove(HUD_OPTION@),
            };
            &&& run_all(before, restore) == after
            &&& run_all(half, restore) == after
            &&& run_all(show_all(on, texts), restore) == after
        }),
{
    lemma_flags();
    let half = run(before, set_window_option(BORDER_STATUS@, "top"@));
    let on = run(half, set_window_option(BORDER_FORMAT@, HUD_FORMAT@));
    let shown = show_all(on, texts);
    let restore = restore_commands(prev_status, prev_format);
    lemma_show_all(on, texts);
    lemma_restore(before, prev_status, prev_format);
    lemma_restore(half, prev_status, prev_format);
    lemma_restore(shown, prev_status, prev_format);
    assert(run_all(before, restore).window =~= before.window);
    assert(run_all(half, restore).window =~= before.window);
    assert(run_all(shown, restore).window =~= before.window);
}

/// The prior border comes back: after a setup in which every command succeeds, with
/// any texts shown, the commands of the restore give every window option its value
/// from before, and leave the pane without the option of the line.
pub proof fn law_border_returns(
    before: TmuxOptions,
    status_output: Seq<char>,
    format_output: Seq<char>,
    texts: Seq<Seq<char>>,
)
    requires
        shows(status_output, before, BORDER_STATUS@),
        shows(format_output, before, BORDER_FORMAT@),
    ensures
        ({
            let asked = SetupView::AskStatus.next(true, status_output).next(true, format_output);
            let half = run(before, asked.command()->0);
            let set = asked.next(true, Seq::empty());
            let on = run(half, set.command()->0);
            &&& set.next(true, Seq::empty()) matches SetupView::Finished {
                active,
                prev_status,
                prev_format,
                remaining,
            }
            &&& active
            &&& remaining.len() == 0
            &&& run_all(show_all(on, texts), restore_commands(prev_status, prev_format)) == (
            TmuxOptions { window: before.window, pane: before.pane.remove(HUD_OPTION@) })
        }),
{
    law_output_tells(before, BORDER_STATUS@, status_output);
    law_output_tells(before, BORDER_FORMAT@, format_output);
    lemma_options_return(
        before,
        captured(true, status_output),
        captured(true, format_output),
        texts,
    );
}

/// The prior border comes back as well where the setup fails to set an option,
/// whether it is the first or the second.
pub proof fn law_failed_setup_returns(
    before: TmuxOptions,
    status_output: Seq<char>,
    format_output: Seq<char>,
)
    requires
        shows(status_output, before, BORDER_STATUS@),
        shows(format_output, before, BORDER_FORMAT@),
    ensures
        ({
            let asked = SetupView::AskStatus.next(true, status_output).next(true, format_output);
            let half = run(before, asked.command()->0);
            let after = TmuxOptions {
                window: before.window,
                pane: before.pane.remove(HUD_OPTION@),
            };
            &&& asked.next(false, Seq::empty()) matches SetupView::Finished { active, remaining, .. }
                && !active && run_all(before, remaining) == after
            &&& asked.next(true, Seq::empty()).next(
                false,
                Seq::empty(),
            ) matches SetupView::Finished { active, remaining, .. } && !active && run_all(
                half,
                remaining,
            ) == after
        }),
{
    law_output_tells(before, BORDER_STATUS@, status_output);
    law_output_tells(before, BORDER_FORMAT@, format_output);
    lemma_options_return(
        before,
        captured(true, status_output),
        captured(true, format_output),
        Seq::empty(),
    );
}

/// A setup inside tmux ends with a line exactly where every command succeeds, and then
/// knows what was printed for the options before. Where an option could not be asked
/// for, nothing was changed and no command remains; where one could not be set, the
/// commands remain that put the border back.
pub proof fn law_setup_outcome(ok: Seq<bool>, output: Seq<Seq<char>>)
    requires
        ok.len() == 4,
        output.len() == 4,
    ensures
        ({
            let end = SetupView::AskStatus.next(ok[0], output[0]).next(ok[1], output[1]).next(
                ok[2],
                output[2],
            ).next(ok[3], output[3]);
            let prev = (captured(true, output[0]), captured(true, output[1]));
            &&& end matches SetupView::Finished { active, prev_status, prev_format, remaining }
            &&& active == (ok[0] && ok[1] && ok[2] && ok[3])
            &&& active ==> prev_status == prev.0 && prev_format == prev.1 && remaining.len() == 0
            &&& !active && ok[0] && ok[1] ==> remaining == restore_commands(prev.0, prev.1)
            &&& !(ok[0] && ok[1]) ==> remaining.len() == 0
        }),
{
}

/// After the commands of an update the pane's option of the line holds a space, every
/// character of the text in order, and a space, however long the text is. No other option
/// changes, and the client is redrawn last.
pub proof fn law_update_shows_text(o: TmuxOptions, text: Seq<char>)
    ensures
        ({
            let commands = update_commands(text);
            let after = run_all(o, commands);
            let line = after.pane["@thclaws_hud"@];
            &&& after.pane.contains_key("@thclaws_hud"@)
            &&& line.len() == text.len() + 2
            &&& line.first() == ' '
            &&& line.subrange(1, (text.len() + 1) as int) == text
            &&& line.last() == ' '
            &&& after.pane.remove("@thclaws_hud"@) == o.pane.remove("@thclaws_hud"@)
            &&& after.window == o.window
            &&& commands.last() == seq!["refresh-client"@]
        }),
{
    lemma_flags();
    reveal_strlit(" ");
    let cs = update_commands(text);
    assert(cs.drop_last().drop_last() == Seq::<Seq<Seq<char>>>::empty());
    assert(cs.drop_last().last() == cs[0]);
    reveal_with_fuel(run_all, 3);
    let after = run_all(o, cs);
    assert(after.pane == o.pane.insert("@thclaws_hud"@, cs[0][3]));
    assert(cs[0][3].subrange(1, (text.len() + 1) as int) == text);
    assert(after.pane.remove("@thclaws_hud"@) == o.pane.remove("@thclaws_hud"@));
}

/// The setup first asks for the two options that it changes, which changes nothing, and
/// then has the border text stand at the top and show the option of the line. No other
/// option changes.
pub proof fn law_setup_shows_line(
    o: TmuxOptions,
    prev_status: Option<Seq<char>>,
    prev_format: Option<Seq<char>>,
)
    ensures
        SetupView::AskStatus.command() == Some(
            seq!["show-options"@, "-wv"@, "pane-border-status"@],
        ),
        (SetupView::AskFormat { prev_status }).command() == Some(
            seq!["show-options"@, "-wv"@, "pane-border-format"@],
        ),
        run(o, SetupView::AskStatus.command()->0) == o,
        run(o, (SetupView::AskFormat { prev_status }).command()->0) == o,
        ({
            let half = run(o, (SetupView::SetStatus { prev_status, prev_format }).command()->0);
            let on = run(half, (SetupView::SetFormat { prev_status, prev_format }).command()->0);
            &&& on.window == o.window.insert("pane-border-status"@, "top"@).insert(
                "pane-border-format"@,
                "#{@thclaws_hud}"@,
            )
            &&& on.pane == o.pane
        }),
{
    lemma_flags();
    reveal_strlit("show-options");
    reveal_strlit("set-option");
    assert("show-options"@[1] == 'h' && "set-option"@[1] == 'e');
    assert("show-options"@ != "set-option"@);
}

/// A setup that is over runs no further command of its own, and stays as it is.
pub proof fn law_finished_setup_stays(setup: SetupView, ok: bool, output: Seq<char>)
    requires
        setup is Finished,
    ensures
        setup.command() is None,
        setup.next(ok, output) == setup,
{
}

/// What a command has printed is its output but for one line feed at the end. All other
/// white space stays. A command that failed has printed nothing.
pub proof fn law_captured(value: Seq<char>)
    ensures
        captured(true, value.push('\n')) == Some(value),
        value.len() == 0 || value.last() != '\n' ==> captured(true, value) == Some(value),
        captured(false, value) is None,
{
    assert(value.push('\n').drop_last() == value);
}

/// Restoring a window option gives it its former value. One that had no value, or an
/// empty one, is unset. No other option changes.
pub proof fn law_restore_option(o: TmuxOptions, name: Seq<char>, value: Seq<char>)
    ensures
        run(o, restore_command(name, Some(value))) == (TmuxOptions {
            window: if value.len() > 0 {
                o.window.insert(name, value)
            } else {
                o.window.remove(name)
            },
            pane: o.pane,
        }),
        run(o, restore_command(name, None)) == (TmuxOptions {
            window: o.window.remove(name),
            pane: o.pane,
        }),
{
    lemma_flags();
}

/// Putting the border back redraws the client last.
pub proof fn law_restore_redraws(prev_status: Option<Seq<char>>, prev_format: Option<Seq<char>>)
    ensures
        restore_commands(prev_status, prev_format).last() == seq!["refresh-client"@],
{
}

/// What is seen of commands is every argument of each, in place, with all its characters.
pub proof fn law_commands_view(commands: Seq<Vec<String>>, i: int, j: int)
    requires
        0 <= i < commands.len(),
        0 <= j < commands[i]@.len(),
    ensures
        commands_view(commands).len() == commands.len(),
        commands_view(commands)[i] == args_view(commands[i]@),
        args_view(commands[i]@).len() == commands[i]@.len(),
        args_view(commands[i]@)[j] == commands[i]@[j]@,
{
}

} // verus!
