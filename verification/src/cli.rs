//! Dispatch of one command line: global flags, aliases, the built-in
//! `configuration` and `module` commands, module commands, and the
//! `help`/`ping`/`quit` fallbacks.

use vstd::prelude::*;
use crate::commands::{
    command_table, lemma_normalize_to_quit, normalize_command, normalize_spec, parse_context_spec,
    parse_execution_context,
    string_views, ExecutionContext,
};
use crate::commands::{command_specs, str_views};
use crate::text::{
    chars_eq_str, chars_of, concat_str, contains_char, join_spec, join_strs, split_whitespace,
    string_of, trim, trim_spec, views, words,
};

verus! {

/// Whether the command loop goes on after a command.
#[derive(PartialEq, Eq, Structural)]
pub enum CommandResult {
    Continue,
    Quit,
}

/// A call of a module command: its token (`<module>.<command>`) and arguments.
pub struct ModuleCall {
    pub token: String,
    pub args: Vec<String>,
}

/// The built-in answer used when no module command answered.
pub enum Builtin {
    Help,
    Ping,
    Quit,
    Empty,
    /// An unknown command; holds the trimmed input line.
    Unknown(String),
}

/// The abstract content of a [`Builtin`].
pub enum BuiltinView {
    Help,
    Ping,
    Quit,
    Empty,
    Unknown(Seq<char>),
}

impl View for Builtin {
    type V = BuiltinView;

    open spec fn view(&self) -> BuiltinView {
        match self {
            Builtin::Help => BuiltinView::Help,
            Builtin::Ping => BuiltinView::Ping,
            Builtin::Quit => BuiltinView::Quit,
            Builtin::Empty => BuiltinView::Empty,
            Builtin::Unknown(s) => BuiltinView::Unknown(s@),
        }
    }
}

/// What one command line asks for.
pub enum CommandPlan {
    /// Print these lines and go on (a malformed global flag).
    Respond(Vec<String>),
    /// A `configuration ...` command, with its words.
    Configuration(Vec<String>),
    /// A `module ...` command, with its words.
    Module(Vec<String>),
    /// Try these module calls in order; the first that answers (with a
    /// message or an error) ends the command, and when none does the
    /// built-in answer is given.
    Run { calls: Vec<ModuleCall>, context: ExecutionContext, fallback: Builtin },
}

/// The abstract content of a [`CommandPlan`].
pub enum CommandPlanView {
    Respond(Seq<Seq<char>>),
    Configuration(Seq<Seq<char>>),
    Module(Seq<Seq<char>>),
    Run(Seq<(Seq<char>, Seq<Seq<char>>)>, Option<Seq<char>>, Option<u64>, BuiltinView),
}

/// The token and arguments of a module call.
pub open spec fn call_view(c: ModuleCall) -> (Seq<char>, Seq<Seq<char>>) {
    (c.token@, string_views(c.args@))
}

impl View for CommandPlan {
    type V = CommandPlanView;

    open spec fn view(&self) -> CommandPlanView {
        match self {
            CommandPlan::Respond(l) => CommandPlanView::Respond(string_views(l@)),
            CommandPlan::Configuration(p) => CommandPlanView::Configuration(string_views(p@)),
            CommandPlan::Module(p) => CommandPlanView::Module(string_views(p@)),
            CommandPlan::Run { calls, context, fallback } => CommandPlanView::Run(
                calls@.map_values(|c: ModuleCall| call_view(c)),
                match context.net_as {
                    Some(v) => Some(v@),
                    None => None,
                },
                context.net_timeout_ms,
                fallback@,
            ),
        }
    }
}

/// The words with the first one replaced by its canonical name.
pub open spec fn normalize_first(parts: Seq<Seq<char>>) -> Seq<Seq<char>> {
    if parts.len() > 0 {
        parts.update(0, normalize_spec(parts[0]))
    } else {
        parts
    }
}

/// The module calls to try for the words `p`: the first word itself when it
/// is a dotted token, then the first two words joined by a dot.
pub open spec fn calls_spec(p: Seq<Seq<char>>) -> Seq<(Seq<char>, Seq<Seq<char>>)> {
    (if p.len() > 0 && p[0].contains('.') {
        seq![(p[0], p.skip(1))]
    } else {
        Seq::empty()
    }) + (if p.len() >= 2 {
        seq![(p[0] + "."@ + p[1], p.skip(2))]
    } else {
        Seq::empty()
    })
}

/// The built-in answer for the words `p` of the line `trimmed`.
pub open spec fn builtin_spec(p: Seq<Seq<char>>, trimmed: Seq<char>) -> BuiltinView {
    if p.len() == 0 {
        BuiltinView::Empty
    } else if p[0] == "help"@ {
        BuiltinView::Help
    } else if p[0] == "ping"@ {
        BuiltinView::Ping
    } else if p[0] == "quit"@ {
        BuiltinView::Quit
    } else {
        BuiltinView::Unknown(trimmed)
    }
}

/// What the command line `input` asks for.
pub open spec fn plan_spec(input: Seq<char>) -> CommandPlanView {
    let trimmed = trim_spec(input);
    match parse_context_spec(words(trimmed)) {
        Err(e) => CommandPlanView::Respond(seq![e]),
        Ok((cleaned, net_as, timeout)) => {
            let p = normalize_first(cleaned);
            if p.len() > 0 && p[0] == "configuration"@ {
                CommandPlanView::Configuration(p)
            } else if p.len() > 0 && p[0] == "module"@ {
                CommandPlanView::Module(p)
            } else {
                CommandPlanView::Run(calls_spec(p), net_as, timeout, builtin_spec(p, trimmed))
            }
        },
    }
}

fn strings_of(v: &Vec<Vec<char>>) -> (r: Vec<String>)
    ensures
        string_views(r@) == views(v@),
{
    let mut r: Vec<String> = Vec::new();
    let mut i: usize = 0;
    while i < v.len()
        invariant
            i <= v.len(),
            string_views(r@) == views(v@).take(i as int),
        decreases v.len() - i,
    {
        let s = string_of(&v[i]);
        let ghost before = string_views(r@);
        r.push(s);
        i = i + 1;
        assert(string_views(r@) =~= before.push(s@));
        assert(views(v@).take(i as int) =~= views(v@).take(i - 1).push(v@[i - 1]@));
    }
    assert(views(v@).take(i as int) =~= views(v@));
    r
}

fn clone_strings_from(v: &Vec<String>, from: usize) -> (r: Vec<String>)
    requires
        from <= v.len(),
    ensures
        string_views(r@) == string_views(v@).skip(from as int),
{
    let mut r: Vec<String> = Vec::new();
    let mut i: usize = from;
    while i < v.len()
        invariant
            from <= i <= v.len(),
            string_views(r@) == string_views(v@).subrange(from as int, i as int),
        decreases v.len() - i,
    {
        let s = v[i].clone();
        let ghost before = string_views(r@);
        r.push(s);
        i = i + 1;
        assert(string_views(r@) =~= before.push(s@));
        assert(string_views(v@).subrange(from as int, i as int) =~= string_views(v@).subrange(
            from as int,
            i - 1,
        ).push(v@[i - 1]@));
    }
    assert(string_views(v@).subrange(from as int, i as int) =~= string_views(v@).skip(from as int));
    r
}

/// Decides what one command line asks for. The line is trimmed and split
/// into words; the global `--net:*` flags are taken out; the first word is
/// replaced by its canonical name; `configuration` and `module` are handled
/// by their own commands; any other line tries the module calls of
/// [`calls_spec`] and falls back to a built-in answer.
pub fn plan_command(input: &str) -> (r: CommandPlan)
    ensures
        r@ == plan_spec(input@),
{
    let line = chars_of(input);
    let trimmed = trim(&line);
    let ws = split_whitespace(&trimmed);
    let words_s = strings_of(&ws);
    let parsed = parse_execution_context(words_s.as_slice());
    let (mut parts, context) = match parsed {
        Err(e) => {
            let mut lines: Vec<String> = Vec::new();
            lines.push(e);
            assert(string_views(lines@) =~= seq![lines@[0]@]);
            return CommandPlan::Respond(lines);
        },
        Ok(v) => v,
    };
    let ghost cleaned = string_views(parts@);
    if parts.len() > 0 {
        let first = normalize_command(parts[0].as_str());
        parts.set(0, first);
        assert(string_views(parts@) =~= normalize_first(cleaned));
    }
    let ghost p = string_views(parts@);
    assert(p == normalize_first(cleaned));
    if parts.len() > 0 {
        let w0 = chars_of(parts[0].as_str());
        assert(w0@ == p[0]);
        if chars_eq_str(&w0, "configuration") {
            return CommandPlan::Configuration(parts);
        }
        if chars_eq_str(&w0, "module") {
            return CommandPlan::Module(parts);
        }
    }
    let mut calls: Vec<ModuleCall> = Vec::new();
    let ghost first_calls: Seq<(Seq<char>, Seq<Seq<char>>)> = if p.len() > 0 && p[0].contains('.') {
        seq![(p[0], p.skip(1))]
    } else {
        Seq::empty()
    };
    if parts.len() > 0 {
        let w0 = chars_of(parts[0].as_str());
        if contains_char(&w0, '.') {
            let call = ModuleCall { token: parts[0].clone(), args: clone_strings_from(&parts, 1) };
            calls.push(call);
        }
    }
    assert(calls@.map_values(|c: ModuleCall| call_view(c)) =~= first_calls);
    if parts.len() >= 2 {
        let a = concat_str(parts[0].as_str(), ".");
        let token = concat_str(a.as_str(), parts[1].as_str());
        let call = ModuleCall { token, args: clone_strings_from(&parts, 2) };
        let ghost before = calls@.map_values(|c: ModuleCall| call_view(c));
        calls.push(call);
        assert(calls@.map_values(|c: ModuleCall| call_view(c)) =~= before.push(
            (p[0] + "."@ + p[1], p.skip(2)),
        ));
    }
    assert(calls@.map_values(|c: ModuleCall| call_view(c)) =~= calls_spec(p));
    let fallback = if parts.len() == 0 {
        Builtin::Empty
    } else {
        let w0 = chars_of(parts[0].as_str());
        assert(w0@ == p[0]);
        if chars_eq_str(&w0, "help") {
            Builtin::Help
        } else if chars_eq_str(&w0, "ping") {
            Builtin::Ping
        } else if chars_eq_str(&w0, "quit") {
            Builtin::Quit
        } else {
            Builtin::Unknown(string_of(&trimmed))
        }
    };
    CommandPlan::Run { calls, context, fallback }
}

/// Whether the command loop goes on after the plan `plan` ran, `answered`
/// telling whether one of its module calls answered: only a run whose
/// calls all passed and whose built-in answer is `quit` ends the loop.
/// Answered lines, flag errors, `configuration` and `module` commands all
/// go on.
pub open spec fn result_spec(plan: CommandPlanView, answered: bool) -> CommandResult {
    match plan {
        CommandPlanView::Run(_, _, _, BuiltinView::Quit) => if answered {
            CommandResult::Continue
        } else {
            CommandResult::Quit
        },
        _ => CommandResult::Continue,
    }
}

/// Whether the command loop goes on after `plan` ran (see [`result_spec`]).
pub fn plan_result(plan: &CommandPlan, answered: bool) -> (r: CommandResult)
    ensures
        r == result_spec(plan@, answered),
{
    match plan {
        CommandPlan::Run { fallback: Builtin::Quit, .. } => if answered {
            CommandResult::Continue
        } else {
            CommandResult::Quit
        },
        _ => CommandResult::Continue,
    }
}

/// The answer of one module call, when it gives one: its message, or its
/// error. `None` (no such command) means the next call is tried.
pub fn call_answer(result: &Result<Option<String>, String>) -> (r: Option<String>)
    ensures
        match result {
            Ok(Some(m)) => r is Some && r->0@ == m@,
            Ok(None) => r is None,
            Err(e) => r is Some && r->0@ == e@,
        },
{
    match result {
        Ok(Some(m)) => Some(m.clone()),
        Ok(None) => None,
        Err(e) => Some(e.clone()),
    }
}


/// The help lines that describe one built-in command.
pub open spec fn command_help(name: Seq<char>, aliases: Seq<Seq<char>>) -> Seq<Seq<char>> {
    if name == "help"@ {
        seq!["- help: show this help message"@]
    } else if name == "ping"@ {
        seq!["- ping: respond with pong"@]
    } else if name == "quit"@ {
        seq!["- quit: exit Arcadia"@]
    } else if name == "configuration"@ {
        seq![
            "- configuration <name>: open config file in default editor"@,
            "- configuration [show|get|set|reset] ...: manage commandline config"@,
        ] + if aliases.len() > 0 {
            seq!["- aliases: "@ + join_spec(aliases, " -> "@) + " -> configuration"@]
        } else {
            Seq::empty()
        }
    } else if name == "module"@ {
        seq![
            "- module <name> enable|disable: toggle a module"@,
            "- module <name> enable -requirements: enable module and required dependencies"@,
        ]
    } else {
        Seq::empty()
    }
}

/// The help lines of the built-in commands `t[0..k]`, in table order.
pub open spec fn table_help(t: Seq<crate::commands::CommandSpecView>) -> Seq<Seq<char>>
    decreases t.len(),
{
    if t.len() == 0 {
        Seq::empty()
    } else {
        table_help(t.drop_last()) + command_help(t.last().name, t.last().aliases)
    }
}

/// The full help text: the built-in commands, the commands of the enabled
/// modules (`module_help`, when there are any) and the global flags.
pub open spec fn help_spec(module_help: Seq<Seq<char>>) -> Seq<Seq<char>> {
    seq!["Available commands:"@] + table_help(command_table()) + (if module_help.len() > 0 {
        seq!["- enabled module commands:"@] + module_help
    } else {
        Seq::empty()
    }) + seq!["- global flags: --net:as lan:<host/ip/alias> | --net:timeout <milliseconds>"@]
}

fn push_line(out: &mut Vec<String>, line: &str)
    ensures
        string_views(final(out)@) == string_views(old(out)@).push(line@),
{
    let ghost before = string_views(out@);
    out.push(line.to_owned());
    assert(string_views(out@) =~= before.push(line@));
}

pub fn push_all_lines(out: &mut Vec<String>, lines: &Vec<String>)
    ensures
        string_views(final(out)@) == string_views(old(out)@) + string_views(lines@),
{
    let ghost start = string_views(out@);
    let mut i: usize = 0;
    while i < lines.len()
        invariant
            i <= lines.len(),
            string_views(out@) == start + string_views(lines@).take(i as int),
        decreases lines.len() - i,
    {
        let ghost before = string_views(out@);
        out.push(lines[i].clone());
        i = i + 1;
        assert(string_views(out@) =~= before.push(lines@[i - 1]@));
        assert(string_views(lines@).take(i as int) =~= string_views(lines@).take(i - 1).push(
            lines@[i - 1]@,
        ));
    }
    assert(string_views(lines@).take(i as int) =~= string_views(lines@));
}

/// The lines that `help` prints; `module_help` holds the help lines of the
/// commands of the enabled modules.
pub fn help_lines(module_help: &Vec<String>) -> (lines: Vec<String>)
    ensures
        string_views(lines@) == help_spec(string_views(module_help@)),
{
    let mut lines: Vec<String> = Vec::new();
    push_line(&mut lines, "Available commands:");
    let specs = command_specs();
    let ghost head = string_views(lines@);
    let mut i: usize = 0;
    while i < specs.len()
        invariant
            i <= specs@.len() == command_table().len(),
            forall|k: int| 0 <= k < specs@.len() ==> #[trigger] specs@[k]@ == command_table()[k],
            string_views(lines@) == head + table_help(command_table().take(i as int)),
        decreases specs.len() - i,
    {
        let ghost before = string_views(lines@);
        let spec = &specs[i];
        let name = chars_of(spec.name);
        assert(spec@ == command_table()[i as int]);
        assert(command_table().take(i + 1).drop_last() =~= command_table().take(i as int));
        let ghost expected = command_help(spec.name@, str_views(spec.aliases@));
        if chars_eq_str(&name, "help") {
            push_line(&mut lines, "- help: show this help message");
            assert(string_views(lines@) =~= before + expected);
        } else if chars_eq_str(&name, "ping") {
            push_line(&mut lines, "- ping: respond with pong");
            assert(string_views(lines@) =~= before + expected);
        } else if chars_eq_str(&name, "quit") {
            push_line(&mut lines, "- quit: exit Arcadia");
            assert(string_views(lines@) =~= before + expected);
        } else if chars_eq_str(&name, "configuration") {
            push_line(&mut lines, "- configuration <name>: open config file in default editor");
            push_line(&mut lines, "- configuration [show|get|set|reset] ...: manage commandline config");
            if spec.aliases.len() > 0 {
                let joined = join_strs(&spec.aliases, " -> ");
                let mut text = chars_of("- aliases: ");
                crate::text::push_chars(&mut text, &joined);
                crate::text::push_str(&mut text, " -> configuration");
                let line = string_of(&text);
                push_line(&mut lines, line.as_str());
            }
            assert(string_views(lines@) =~= before + expected);
        } else if chars_eq_str(&name, "module") {
            push_line(&mut lines, "- module <name> enable|disable: toggle a module");
            push_line(
                &mut lines,
                "- module <name> enable -requirements: enable module and required dependencies",
            );
            assert(string_views(lines@) =~= before + expected);
        } else {
            assert(string_views(lines@) =~= before + expected);
        }
        i = i + 1;
    }
    assert(command_table().take(i as int) =~= command_table());
    let ghost mid = string_views(lines@);
    if module_help.len() > 0 {
        push_line(&mut lines, "- enabled module commands:");
        push_all_lines(&mut lines, module_help);
        assert(string_views(lines@) =~= mid + (seq!["- enabled module commands:"@] + string_views(
            module_help@,
        )));
    } else {
        assert(string_views(lines@) =~= mid + Seq::<Seq<char>>::empty());
    }
    push_line(
        &mut lines,
        "- global flags: --net:as lan:<host/ip/alias> | --net:timeout <milliseconds>",
    );
    lines
}

/// The answer of a built-in command: the lines to print and whether the
/// loop goes on. `module_help` feeds [`help_lines`].
pub fn builtin_response(b: &Builtin, module_help: &Vec<String>) -> (r: (Vec<String>, CommandResult))
    ensures
        match b@ {
            BuiltinView::Help => string_views(r.0@) == help_spec(string_views(module_help@))
                && r.1 == CommandResult::Continue,
            BuiltinView::Ping => string_views(r.0@) == seq!["pong"@] && r.1
                == CommandResult::Continue,
            BuiltinView::Quit => r.0@.len() == 0 && r.1 == CommandResult::Quit,
            BuiltinView::Empty => r.0@.len() == 0 && r.1 == CommandResult::Continue,
            BuiltinView::Unknown(t) => string_views(r.0@) == seq!["Unknown command: "@ + t] && r.1
                == CommandResult::Continue,
        },
{
    let mut out: Vec<String> = Vec::new();
    match b {
        Builtin::Help => (help_lines(module_help), CommandResult::Continue),
        Builtin::Ping => {
            push_line(&mut out, "pong");
            (out, CommandResult::Continue)
        },
        Builtin::Quit => (out, CommandResult::Quit),
        Builtin::Empty => (out, CommandResult::Continue),
        Builtin::Unknown(t) => {
            let line = concat_str("Unknown command: ", t.as_str());
            push_line(&mut out, line.as_str());
            (out, CommandResult::Continue)
        },
    }
}


/// A line's built-in answer is `quit` exactly when its first word, once the
/// global flags are taken out, is `quit`; a malformed flag, the
/// `configuration` and `module` commands and every other first word get
/// another answer.
pub proof fn law_quit_comes_from_word_quit(input: Seq<char>)
    ensures
        (plan_spec(input) matches CommandPlanView::Run(_, _, _, BuiltinView::Quit)) <==> (
        parse_context_spec(words(trim_spec(input))) matches Ok((c, _, _)) && c.len() > 0 && c[0]
            == "quit"@),
{
    reveal_strlit("quit");
    reveal_strlit("configuration");
    reveal_strlit("module");
    reveal_strlit("help");
    reveal_strlit("ping");
    assert("quit"@[0] != "configuration"@[0]);
    assert("quit"@[0] != "module"@[0]);
    assert("quit"@[0] != "help"@[0]);
    assert("quit"@[0] != "ping"@[0]);
    match parse_context_spec(words(trim_spec(input))) {
        Ok((c, _, _)) => {
            if c.len() > 0 {
                lemma_normalize_to_quit(c[0]);
                assert(normalize_first(c)[0] == normalize_spec(c[0]));
            }
        },
        Err(_) => {},
    }
}


/// A command line ends the loop only when its first word, once the global
/// flags are taken out, is `quit` and no module call answered; a line that
/// is `quit` alone (flags aside) tries no module call and ends it.
pub proof fn law_only_quit_ends_the_loop(input: Seq<char>, answered: bool)
    ensures
        result_spec(plan_spec(input), answered) == CommandResult::Quit ==> (parse_context_spec(
            words(trim_spec(input)),
        ) matches Ok((c, _, _)) && c.len() > 0 && c[0] == "quit"@),
        (parse_context_spec(words(trim_spec(input))) matches Ok((c, _, _)) && c == seq!["quit"@])
            ==> (plan_spec(input) matches CommandPlanView::Run(calls, _, _, _) && calls.len() == 0
            && result_spec(plan_spec(input), false) == CommandResult::Quit),
{
    law_quit_comes_from_word_quit(input);
    reveal_strlit("quit");
    match parse_context_spec(words(trim_spec(input))) {
        Ok((c, _, _)) => {
            if c == seq!["quit"@] {
                let p = normalize_first(c);
                assert(p.len() == 1);
                assert(!p[0].contains('.')) by {
                    lemma_normalize_to_quit(c[0]);
                    assert(p[0] == "quit"@);
                    assert forall|k: int| 0 <= k < p[0].len() implies p[0][k] != '.' by {}
                }
                assert(calls_spec(p) =~= Seq::empty());
            }
        },
        Err(_) => {},
    }
}

} // verus!
