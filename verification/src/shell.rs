//! The embedded shell: its two modes and the line editor behind its prompt
//! (cursor movement, editing, and the command history).

use vstd::prelude::*;
use crate::commands::string_views;
use crate::text::{
    chars_eq_str, chars_of, concat_str, lines_of, lines_spec, lower, string_of, to_ascii_lower, trim,
    trim_spec, views,
};

verus! {

/// Whether shell input runs as a system command or as an internal command.
#[derive(Clone, Copy, PartialEq, Eq, Structural)]
pub enum ShellMode {
    Generic,
    Internal,
}

/// The other mode.
pub open spec fn toggled(m: ShellMode) -> ShellMode {
    match m {
        ShellMode::Generic => ShellMode::Internal,
        ShellMode::Internal => ShellMode::Generic,
    }
}

impl ShellMode {
    /// The other mode.
    pub fn toggle(self) -> (r: ShellMode)
        ensures
            r == toggled(self),
    {
        match self {
            ShellMode::Generic => ShellMode::Internal,
            ShellMode::Internal => ShellMode::Generic,
        }
    }

    /// The label shown for the mode: `system` or `internal`.
    pub fn label(self) -> (r: &'static str)
        ensures
            r@ == match self {
                ShellMode::Generic => "system"@,
                ShellMode::Internal => "internal"@,
            },
    {
        match self {
            ShellMode::Generic => "system",
            ShellMode::Internal => "internal",
        }
    }

    /// The module command that runs input in this mode.
    pub fn command_token(self) -> (r: &'static str)
        ensures
            r@ == match self {
                ShellMode::Generic => "shell.execute"@,
                ShellMode::Internal => "shell.internal"@,
            },
    {
        match self {
            ShellMode::Generic => "shell.execute",
            ShellMode::Internal => "shell.internal",
        }
    }
}

/// Toggling the shell mode changes it, and toggling it twice gives it back.
pub proof fn law_toggle_twice(m: ShellMode)
    ensures
        toggled(m) != m,
        toggled(toggled(m)) == m,
{
}

/// The modifier keys held with a key press.
#[derive(Clone, Copy)]
pub struct KeyModifiers {
    pub control: bool,
    pub alt: bool,
    pub shift: bool,
    pub platform: bool,
    pub function: bool,
}

/// The state of the shell prompt: the input line, the cursor (a character
/// index), the commands entered so far, and the position while browsing them.
pub struct ShellEditor {
    pub input: Vec<char>,
    pub cursor: usize,
    pub command_history: Vec<String>,
    pub history_index: Option<usize>,
}

/// The abstract content of a [`ShellEditor`].
pub struct EditorView {
    pub input: Seq<char>,
    pub cursor: int,
    pub history: Seq<Seq<char>>,
    pub index: Option<int>,
}

impl View for ShellEditor {
    type V = EditorView;

    open spec fn view(&self) -> EditorView {
        EditorView {
            input: self.input@,
            cursor: self.cursor as int,
            history: string_views(self.command_history@),
            index: match self.history_index {
                Some(i) => Some(i as int),
                None => None,
            },
        }
    }
}

/// The cursor lies within the input, and a browsed position lies within the history.
pub open spec fn editor_wf(e: EditorView) -> bool {
    &&& 0 <= e.cursor <= e.input.len()
    &&& e.index matches Some(i) ==> 0 <= i < e.history.len()
}

/// Inserts `s` into `input` at `at`.
pub open spec fn insert_at(input: Seq<char>, at: int, s: Seq<char>) -> Seq<char> {
    input.take(at) + s + input.skip(at)
}

/// Whether a press with these modifiers types its character.
pub open spec fn types_text(m: KeyModifiers) -> bool {
    !m.control && !m.alt && !m.platform && !m.function
}

/// The editor after a key press, and the command to run (for `enter` on a
/// line that is not blank). `key` names the key; `key_char` is the text it types.
pub open spec fn key_step(
    e: EditorView,
    key: Seq<char>,
    key_char: Option<Seq<char>>,
    mods: KeyModifiers,
) -> (EditorView, Option<Seq<char>>) {
    if key == "enter"@ {
        let command = trim_spec(e.input);
        let history = if command.len() > 0 {
            e.history.push(command)
        } else {
            e.history
        };
        (
            EditorView { input: Seq::empty(), cursor: 0, history, index: None },
            if command.len() > 0 {
                Some(command)
            } else {
                None
            },
        )
    } else if key == "backspace"@ {
        if e.cursor > 0 {
            (EditorView { input: e.input.remove(e.cursor - 1), cursor: e.cursor - 1, ..e }, None)
        } else {
            (e, None)
        }
    } else if key == "left"@ {
        (EditorView { cursor: if e.cursor > 0 { e.cursor - 1 } else { 0 }, ..e }, None)
    } else if key == "right"@ {
        (
            EditorView {
                cursor: if e.cursor + 1 < e.input.len() { e.cursor + 1 } else { e.input.len() as int },
                ..e
            },
            None,
        )
    } else if key == "up"@ {
        if e.history.len() > 0 {
            let next = match e.index {
                Some(i) => if i > 0 { i - 1 } else { 0 },
                None => e.history.len() - 1,
            };
            (
                EditorView {
                    input: e.history[next],
                    cursor: e.history[next].len() as int,
                    index: Some(next),
                    ..e
                },
                None,
            )
        } else {
            (e, None)
        }
    } else if key == "down"@ {
        match e.index {
            Some(i) => if i + 1 < e.history.len() {
                (
                    EditorView {
                        input: e.history[i + 1],
                        cursor: e.history[i + 1].len() as int,
                        index: Some(i + 1),
                        ..e
                    },
                    None,
                )
            } else {
                (EditorView { input: Seq::empty(), cursor: 0, index: None, ..e }, None)
            },
            None => (e, None),
        }
    } else if key == "home"@ {
        (EditorView { cursor: 0, ..e }, None)
    } else if key == "end"@ {
        (EditorView { cursor: e.input.len() as int, ..e }, None)
    } else if key == "space"@ {
        (EditorView { input: insert_at(e.input, e.cursor, seq![' ']), cursor: e.cursor + 1, ..e }, None)
    } else if types_text(mods) && key_char is Some {
        let s = key_char->0;
        (EditorView { input: insert_at(e.input, e.cursor, s), cursor: e.cursor + s.len(), ..e }, None)
    } else {
        (e, None)
    }
}

fn insert_chars(input: &Vec<char>, at: usize, s: &Vec<char>) -> (r: Vec<char>)
    requires
        at <= input.len(),
    ensures
        r@ == insert_at(input@, at as int, s@),
{
    let mut r = crate::text::slice_vec(input, 0, at);
    crate::text::push_chars(&mut r, s);
    let rest = crate::text::slice_vec(input, at, input.len());
    crate::text::push_chars(&mut r, &rest);
    assert(r@ =~= insert_at(input@, at as int, s@));
    r
}

impl ShellEditor {
    /// An empty prompt with no history.
    pub fn new() -> (e: ShellEditor)
        ensures
            e@.input.len() == 0,
            e@.cursor == 0,
            e@.history.len() == 0,
            e@.index is None,
            editor_wf(e@),
    {
        let e = ShellEditor {
            input: Vec::new(),
            cursor: 0,
            command_history: Vec::new(),
            history_index: None,
        };
        assert(e@.history =~= Seq::<Seq<char>>::empty());
        e
    }

    /// The input line as a string.
    pub fn input_string(&self) -> (s: String)
        ensures
            s@ == self@.input,
    {
        string_of(&self.input)
    }

    /// Clears the input and leaves history browsing, keeping the history.
    pub fn reset_input(&mut self)
        requires
            editor_wf(old(self)@),
        ensures
            final(self)@ == (EditorView { input: Seq::empty(), cursor: 0, index: None, ..old(self)@ }),
            editor_wf(final(self)@),
    {
        self.input = Vec::new();
        self.cursor = 0;
        self.history_index = None;
        assert(self@.input =~= Seq::<char>::empty());
    }

    /// Applies a key press to the prompt (see [`key_step`]) and returns the
    /// command to run, if the press submitted one.
    pub fn handle_key(&mut self, key: &str, key_char: Option<&str>, mods: KeyModifiers) -> (r: Option<
        String,
    >)
        requires
            editor_wf(old(self)@),
            old(self).input@.len() < usize::MAX,
            key_char matches Some(kc) ==> old(self).input@.len() + kc@.len() <= usize::MAX,
        ensures
            editor_wf(final(self)@),
            final(self)@ == key_step(
                old(self)@,
                key@,
                match key_char {
                    Some(kc) => Some(kc@),
                    None => None,
                },
                mods,
            ).0,
            match key_step(
                old(self)@,
                key@,
                match key_char {
                    Some(kc) => Some(kc@),
                    None => None,
                },
                mods,
            ).1 {
                Some(c) => r is Some && r->0@ == c,
                None => r is None,
            },
    {
        let k = chars_of(key);
        if chars_eq_str(&k, "enter") {
            let command = trim(&self.input);
            let mut out: Option<String> = None;
            if command.len() > 0 {
                let text = string_of(&command);
                let ghost before = string_views(self.command_history@);
                self.command_history.push(text.clone());
                assert(string_views(self.command_history@) =~= before.push(text@));
                out = Some(text);
            }
            self.input = Vec::new();
            self.cursor = 0;
            self.history_index = None;
            assert(self@.input =~= Seq::<char>::empty());
            return out;
        }
        if chars_eq_str(&k, "backspace") {
            if self.cursor > 0 {
                self.input.remove(self.cursor - 1);
                self.cursor = self.cursor - 1;
            }
            return None;
        }
        if chars_eq_str(&k, "left") {
            if self.cursor > 0 {
                self.cursor = self.cursor - 1;
            }
            return None;
        }
        if chars_eq_str(&k, "right") {
            let len = self.input.len();
            if self.cursor + 1 < len {
                self.cursor = self.cursor + 1;
            } else {
                self.cursor = len;
            }
            return None;
        }
        if chars_eq_str(&k, "up") {
            if self.command_history.len() > 0 {
                let next: usize = match self.history_index {
                    Some(i) => if i > 0 {
                        i - 1
                    } else {
                        0
                    },
                    None => self.command_history.len() - 1,
                };
                let entry = chars_of(self.command_history[next].as_str());
                self.history_index = Some(next);
                self.cursor = entry.len();
                self.input = entry;
            }
            return None;
        }
        if chars_eq_str(&k, "down") {
            match self.history_index {
                Some(i) => {
                    let len = self.command_history.len();
                    assert(self@.history.len() == len);
                    if len - i > 1 {
                        let next = i + 1;
                        let entry = chars_of(self.command_history[next].as_str());
                        self.history_index = Some(next);
                        self.cursor = entry.len();
                        self.input = entry;
                    } else {
                        self.history_index = None;
                        self.input = Vec::new();
                        self.cursor = 0;
                        assert(self@.input =~= Seq::<char>::empty());
                    }
                },
                None => {},
            }
            return None;
        }
        if chars_eq_str(&k, "home") {
            self.cursor = 0;
            return None;
        }
        if chars_eq_str(&k, "end") {
            self.cursor = self.input.len();
            return None;
        }
        if chars_eq_str(&k, "space") {
            let mut one: Vec<char> = Vec::new();
            one.push(' ');
            self.input = insert_chars(&self.input, self.cursor, &one);
            self.cursor = self.cursor + 1;
            assert(one@ =~= seq![' ']);
            return None;
        }
        if !mods.control && !mods.alt && !mods.platform && !mods.function {
            match key_char {
                Some(kc) => {
                    let typed = chars_of(kc);
                    self.input = insert_chars(&self.input, self.cursor, &typed);
                    self.cursor = self.cursor + typed.len();
                },
                None => {},
            }
        }
        None
    }
}


/// The names of the keys that the prompt handles itself.
pub open spec fn is_named_key(key: Seq<char>) -> bool {
    key == "enter"@ || key == "backspace"@ || key == "left"@ || key == "right"@ || key == "up"@
        || key == "down"@ || key == "home"@ || key == "end"@ || key == "space"@
}

proof fn lemma_key_names_distinct()
    ensures
        "backspace"@ != "enter"@,
        "up"@ != "enter"@,
        "up"@ != "backspace"@,
        "up"@ != "left"@,
        "up"@ != "right"@,
        "down"@ != "enter"@,
        "down"@ != "backspace"@,
        "down"@ != "left"@,
        "down"@ != "right"@,
        "down"@ != "up"@,
{
    reveal_strlit("up");
    reveal_strlit("down");
    reveal_strlit("enter");
    reveal_strlit("backspace");
    reveal_strlit("left");
    reveal_strlit("right");
    assert("backspace"@[0] != "enter"@[0]);
    assert("up"@[0] != "enter"@[0]);
    assert("up"@[0] != "backspace"@[0]);
    assert("up"@[0] != "left"@[0]);
    assert("up"@[0] != "right"@[0]);
    assert("down"@[0] != "enter"@[0]);
    assert("down"@[0] != "backspace"@[0]);
    assert("down"@[0] != "left"@[0]);
    assert("down"@[0] != "right"@[0]);
    assert("down"@[0] != "up"@[0]);
}

/// Every key press keeps the cursor within the input and a browsed position
/// within the history.
pub proof fn law_key_step_keeps_wf(
    e: EditorView,
    key: Seq<char>,
    key_char: Option<Seq<char>>,
    mods: KeyModifiers,
)
    requires
        editor_wf(e),
    ensures
        editor_wf(key_step(e, key, key_char, mods).0),
{
    if key == "enter"@ {
    } else if key == "backspace"@ {
    } else if key == "up"@ {
    } else if key == "down"@ {
    } else if key == "space"@ {
    } else if !(key == "left"@ || key == "right"@ || key == "home"@ || key == "end"@) && types_text(mods) && key_char is Some {
        let s = key_char->0;
        assert(insert_at(e.input, e.cursor, s).len() == e.input.len() + s.len());
    }
}

/// Typing one character and then pressing backspace gives back the input
/// and the cursor that were there before.
pub proof fn law_backspace_undoes_typing(
    e: EditorView,
    key: Seq<char>,
    c: char,
    mods: KeyModifiers,
)
    requires
        editor_wf(e),
        !is_named_key(key),
        types_text(mods),
    ensures
        ({
            let typed = key_step(e, key, Some(seq![c]), mods).0;
            let undone = key_step(typed, "backspace"@, None, mods).0;
            undone.input == e.input && undone.cursor == e.cursor && undone.history == e.history
                && undone.index == e.index
        }),
{
    lemma_key_names_distinct();
    let typed = key_step(e, key, Some(seq![c]), mods).0;
    assert(typed.input == insert_at(e.input, e.cursor, seq![c]));
    assert(typed.input.remove(e.cursor) =~= e.input);
}

/// Pressing enter submits the trimmed input when it is not blank, appends it
/// to the history, and leaves an empty prompt outside history browsing.
pub proof fn law_enter_submits_trimmed_line(e: EditorView, mods: KeyModifiers)
    ensures
        ({
            let (n, cmd) = key_step(e, "enter"@, None, mods);
            &&& n.input.len() == 0 && n.cursor == 0 && n.index is None
            &&& (trim_spec(e.input).len() > 0 ==> cmd == Some(trim_spec(e.input)) && n.history
                == e.history.push(trim_spec(e.input)))
            &&& (trim_spec(e.input).len() == 0 ==> cmd is None && n.history == e.history)
        }),
{
}

/// From a fresh prompt, `up` recalls the latest command and `down` then
/// returns to an empty prompt.
pub proof fn law_up_then_down(e: EditorView, mods: KeyModifiers)
    requires
        editor_wf(e),
        e.index is None,
        e.history.len() > 0,
    ensures
        ({
            let up = key_step(e, "up"@, None, mods).0;
            let down = key_step(up, "down"@, None, mods).0;
            &&& up.input == e.history.last() && up.cursor == e.history.last().len()
            &&& down.input.len() == 0 && down.cursor == 0 && down.index is None
            &&& down.history == e.history
        }),
{
    lemma_key_names_distinct();
}

/// The input with a `|` caret at the cursor (clamped to the input's end)
/// when the prompt has focus and the blinking caret is shown.
pub open spec fn with_caret(input: Seq<char>, cursor: int, show: bool) -> Seq<char> {
    if show {
        let at = if cursor < input.len() { cursor } else { input.len() as int };
        insert_at(input, at, seq!['|'])
    } else {
        input
    }
}

/// The prompt text with its caret (see [`with_caret`]).
pub fn shell_input_with_cursor(input: &Vec<char>, cursor: usize, is_focused: bool, caret_visible: bool) -> (r:
    String)
    ensures
        r@ == with_caret(input@, cursor as int, is_focused && caret_visible),
{
    if is_focused && caret_visible {
        let at = if cursor < input.len() {
            cursor
        } else {
            input.len()
        };
        let mut bar: Vec<char> = Vec::new();
        bar.push('|');
        assert(bar@ =~= seq!['|']);
        string_of(&insert_chars(input, at, &bar))
    } else {
        string_of(input)
    }
}

/// Taking the caret out of the prompt text gives the input back.
pub proof fn law_caret_is_only_addition(input: Seq<char>, cursor: int, show: bool)
    ensures
        show ==> {
            let at = if cursor < input.len() { cursor } else { input.len() as int };
            at >= 0 ==> with_caret(input, cursor, show).remove(at) == input
        },
        !show ==> with_caret(input, cursor, show) == input,
{
    if show {
        let at = if cursor < input.len() { cursor } else { input.len() as int };
        if at >= 0 {
            assert(with_caret(input, cursor, show).remove(at) =~= input);
        }
    }
}

/// Whether a shell command clears the transcript: `clear` or `cls` in any
/// ASCII case, after trimming.
pub open spec fn is_clear_spec(command: Seq<char>) -> bool {
    lower(trim_spec(command)) == "clear"@ || lower(trim_spec(command)) == "cls"@
}

/// Whether a shell command clears the transcript instead of running.
pub fn is_clear_command(command: &str) -> (r: bool)
    ensures
        r == is_clear_spec(command@),
{
    let t = to_ascii_lower(&trim(&chars_of(command)));
    chars_eq_str(&t, "clear") || chars_eq_str(&t, "cls")
}


/// The `$ ` prompt written before a command in the transcript, coloured for
/// the dark or the light appearance.
pub open spec fn prompt_prefix_spec(is_dark: bool) -> Seq<char> {
    if is_dark {
        "\x1b[38;2;96;165;250m$\x1b[0m "@
    } else {
        "\x1b[38;2;29;78;216m$\x1b[0m "@
    }
}

/// The transcript line that records a command.
pub fn history_entry(is_dark: bool, command: &str) -> (r: String)
    ensures
        r@ == prompt_prefix_spec(is_dark) + command@,
{
    if is_dark {
        concat_str("\x1b[38;2;96;165;250m$\x1b[0m ", command)
    } else {
        concat_str("\x1b[38;2;29;78;216m$\x1b[0m ", command)
    }
}

/// The text an internal shell command produced: its output, the message
/// for an unknown token, or its error.
pub open spec fn shell_output_spec(result: Result<Option<Seq<char>>, Seq<char>>) -> Seq<char> {
    match result {
        Ok(Some(o)) => o,
        Ok(None) => "Unknown shell command token."@,
        Err(e) => e,
    }
}

/// The transcript lines of an internal shell command's result, one per line
/// of its text (streamed to the transcript in this order).
pub fn shell_output_lines(result: &Result<Option<String>, String>) -> (r: Vec<String>)
    ensures
        string_views(r@) == lines_spec(
            shell_output_spec(
                match result {
                    Ok(Some(o)) => Ok(Some(o@)),
                    Ok(None) => Ok(None),
                    Err(e) => Err(e@),
                },
            ),
        ),
{
    let text = match result {
        Ok(Some(o)) => chars_of(o.as_str()),
        Ok(None) => chars_of("Unknown shell command token."),
        Err(e) => chars_of(e.as_str()),
    };
    let ls = lines_of(&text);
    let mut out: Vec<String> = Vec::new();
    let mut i: usize = 0;
    assert(string_views(out@) =~= Seq::<Seq<char>>::empty());
    while i < ls.len()
        invariant
            i <= ls.len(),
            string_views(out@) == views(ls@).take(i as int),
        decreases ls.len() - i,
    {
        let line = string_of(&ls[i]);
        let ghost before = string_views(out@);
        out.push(line);
        i = i + 1;
        assert(string_views(out@) =~= before.push(ls@[i - 1]@));
        assert(views(ls@).take(i as int) =~= views(ls@).take(i - 1).push(ls@[i - 1]@));
    }
    assert(views(ls@).take(i as int) =~= views(ls@));
    out
}

/// The transcript a fresh shell starts with: the message of the day
/// followed by an empty line when both the shell and the message-of-the-day
/// modules are enabled, else a ready line.
pub open spec fn initial_history_spec(shell_on: bool, motd_on: bool, motd: Seq<Seq<char>>) -> Seq<Seq<char>> {
    if shell_on && motd_on {
        motd.push(Seq::empty())
    } else {
        seq!["Arcadia Terminal ready."@]
    }
}

/// The transcript a fresh shell starts with (see [`initial_history_spec`]).
pub fn initial_shell_history(shell_on: bool, motd_on: bool, motd: Vec<String>) -> (r: Vec<String>)
    ensures
        string_views(r@) == initial_history_spec(shell_on, motd_on, string_views(motd@)),
{
    if shell_on && motd_on {
        let mut lines = motd;
        let ghost before = string_views(lines@);
        lines.push(String::new());
        assert(string_views(lines@) =~= before.push(Seq::empty()));
        lines
    } else {
        let mut lines: Vec<String> = Vec::new();
        lines.push("Arcadia Terminal ready.".to_owned());
        assert(string_views(lines@) =~= seq!["Arcadia Terminal ready."@]);
        lines
    }
}

/// What a key press handled at the window level does.
#[derive(PartialEq, Eq, Structural)]
pub enum GlobalKeyAction {
    CloseAppMenu,
    ToggleShellMode,
    Nothing,
}

/// Escape closes the open app menu; on the shell page, shift-tab switches
/// the shell mode unless a terminal program is running.
pub open spec fn global_key_spec(
    key: Seq<char>,
    shift: bool,
    app_menu_open: bool,
    on_shell_page: bool,
    terminal_running: bool,
) -> GlobalKeyAction {
    if key == "escape"@ && app_menu_open {
        GlobalKeyAction::CloseAppMenu
    } else if !on_shell_page {
        GlobalKeyAction::Nothing
    } else if key == "tab"@ && shift && !terminal_running {
        GlobalKeyAction::ToggleShellMode
    } else {
        GlobalKeyAction::Nothing
    }
}

/// What a window-level key press does (see [`global_key_spec`]).
pub fn global_key_action(
    key: &str,
    shift: bool,
    app_menu_open: bool,
    on_shell_page: bool,
    terminal_running: bool,
) -> (r: GlobalKeyAction)
    ensures
        r == global_key_spec(key@, shift, app_menu_open, on_shell_page, terminal_running),
{
    let k = chars_of(key);
    if chars_eq_str(&k, "escape") && app_menu_open {
        GlobalKeyAction::CloseAppMenu
    } else if !on_shell_page {
        GlobalKeyAction::Nothing
    } else if chars_eq_str(&k, "tab") && shift && !terminal_running {
        GlobalKeyAction::ToggleShellMode
    } else {
        GlobalKeyAction::Nothing
    }
}


/// What running a shell command does.
pub enum ShellRun {
    /// Clear the transcript.
    Clear,
    /// Run the (trimmed) command in a terminal session.
    Terminal(String),
    /// Run the command through the internal shell module command `token`.
    Internal { token: &'static str, command: String },
}

/// What running `command` in shell mode `mode` does: `clear`/`cls` clears
/// the transcript; otherwise the system mode runs the trimmed command in a
/// terminal and the internal mode hands the command as written to
/// `shell.internal`.
pub fn shell_run_plan(command: &str, mode: ShellMode) -> (r: ShellRun)
    ensures
        is_clear_spec(command@) ==> r is Clear,
        !is_clear_spec(command@) && mode == ShellMode::Generic ==> (r matches ShellRun::Terminal(c)
            && c@ == trim_spec(command@)),
        !is_clear_spec(command@) && mode == ShellMode::Internal ==> (r matches ShellRun::Internal {
            token: t,
            command: c,
        } && t@ == "shell.internal"@ && c@ == command@),
{
    if is_clear_command(command) {
        return ShellRun::Clear;
    }
    match mode {
        ShellMode::Generic => ShellRun::Terminal(string_of(&trim(&chars_of(command)))),
        ShellMode::Internal => ShellRun::Internal { token: mode.command_token(), command: command.to_owned() },
    }
}


/// `right` moves the cursor exactly one character towards the end of the
/// input (staying at the end), and `left` one character towards the start
/// (staying at the start); neither changes the input, the history or the
/// browsed position, nor runs a command. Where the cursor can move, `left`
/// undoes `right` and `right` undoes `left`.
pub proof fn law_arrows_move_one_character(
    e: EditorView,
    key_char: Option<Seq<char>>,
    mods: KeyModifiers,
)
    requires
        editor_wf(e),
    ensures
        ({
            let (r, cmd) = key_step(e, "right"@, key_char, mods);
            &&& r.cursor == if e.cursor < e.input.len() {
                e.cursor + 1
            } else {
                e.input.len() as int
            }
            &&& r.input == e.input && r.history == e.history && r.index == e.index && cmd is None
        }),
        ({
            let (l, cmd) = key_step(e, "left"@, key_char, mods);
            &&& l.cursor == if e.cursor > 0 {
                e.cursor - 1
            } else {
                0
            }
            &&& l.input == e.input && l.history == e.history && l.index == e.index && cmd is None
        }),
        e.cursor < e.input.len() ==> key_step(
            key_step(e, "right"@, key_char, mods).0,
            "left"@,
            key_char,
            mods,
        ).0 == e,
        e.cursor > 0 ==> key_step(key_step(e, "left"@, key_char, mods).0, "right"@, key_char, mods).0
            == e,
{
    reveal_strlit("enter");
    reveal_strlit("backspace");
    reveal_strlit("left");
    reveal_strlit("right");
    assert("right"@ != "enter"@ && "right"@ != "backspace"@ && "right"@ != "left"@) by {
        assert("right"@[0] != "enter"@[0]);
        assert("right"@[0] != "backspace"@[0]);
        assert("right"@[0] != "left"@[0]);
    }
    assert("left"@ != "enter"@ && "left"@ != "backspace"@) by {
        assert("left"@[0] != "enter"@[0]);
        assert("left"@[0] != "backspace"@[0]);
    }
}

} // verus!
