//! The table of built-in commands, alias resolution, and the global
//! `--net:*` flags that route a command to another machine.

use vstd::prelude::*;
use crate::text::{chars_eq_str, chars_of, is_prefix, parse_u64, parse_u64_spec, starts_with};

verus! {

/// A built-in command: its canonical name, its aliases and its subcommands.
pub struct CommandSpec {
    pub name: &'static str,
    pub aliases: Vec<&'static str>,
    pub subcommands: Vec<&'static str>,
}

/// The abstract content of a [`CommandSpec`].
pub struct CommandSpecView {
    pub name: Seq<char>,
    pub aliases: Seq<Seq<char>>,
    pub subcommands: Seq<Seq<char>>,
}

/// The character sequences of a list of string literals.
pub open spec fn str_views(v: Seq<&'static str>) -> Seq<Seq<char>> {
    v.map_values(|x: &'static str| x@)
}

impl View for CommandSpec {
    type V = CommandSpecView;

    open spec fn view(&self) -> CommandSpecView {
        CommandSpecView {
            name: self.name@,
            aliases: str_views(self.aliases@),
            subcommands: str_views(self.subcommands@),
        }
    }
}

/// The built-in commands, in the order in which they are matched and listed.
pub open spec fn command_table() -> Seq<CommandSpecView> {
    seq![
        CommandSpecView { name: "help"@, aliases: seq![], subcommands: seq![] },
        CommandSpecView { name: "ping"@, aliases: seq![], subcommands: seq![] },
        CommandSpecView {
            name: "configuration"@,
            aliases: seq!["config"@, "cfg"@],
            subcommands: seq!["show"@, "get"@, "set"@, "reset"@],
        },
        CommandSpecView {
            name: "module"@,
            aliases: seq![],
            subcommands: seq!["enable"@, "disable"@],
        },
        CommandSpecView { name: "quit"@, aliases: seq![], subcommands: seq![] },
    ]
}

fn make_spec(name: &'static str, aliases: Vec<&'static str>, subcommands: Vec<&'static str>) -> (s:
    CommandSpec)
    ensures
        s.name == name,
        s.aliases@ == aliases@,
        s.subcommands@ == subcommands@,
{
    CommandSpec { name, aliases, subcommands }
}

/// The built-in commands (`help`, `ping`, `configuration`, `module`, `quit`).
pub fn command_specs() -> (specs: Vec<CommandSpec>)
    ensures
        specs@.len() == command_table().len(),
        forall|i: int| 0 <= i < specs@.len() ==> #[trigger] specs@[i]@ == command_table()[i],
{
    let mut specs: Vec<CommandSpec> = Vec::new();
    specs.push(make_spec("help", Vec::new(), Vec::new()));
    specs.push(make_spec("ping", Vec::new(), Vec::new()));
    let mut cfg_aliases: Vec<&'static str> = Vec::new();
    cfg_aliases.push("config");
    cfg_aliases.push("cfg");
    let mut cfg_subs: Vec<&'static str> = Vec::new();
    cfg_subs.push("show");
    cfg_subs.push("get");
    cfg_subs.push("set");
    cfg_subs.push("reset");
    specs.push(make_spec("configuration", cfg_aliases, cfg_subs));
    let mut module_subs: Vec<&'static str> = Vec::new();
    module_subs.push("enable");
    module_subs.push("disable");
    specs.push(make_spec("module", Vec::new(), module_subs));
    specs.push(make_spec("quit", Vec::new(), Vec::new()));
    proof {
        let t = command_table();
        assert(str_views(specs@[0].aliases@) =~= t[0].aliases);
        assert(str_views(specs@[0].subcommands@) =~= t[0].subcommands);
        assert(str_views(specs@[1].aliases@) =~= t[1].aliases);
        assert(str_views(specs@[1].subcommands@) =~= t[1].subcommands);
        assert(str_views(specs@[2].aliases@) =~= t[2].aliases);
        assert(str_views(specs@[2].subcommands@) =~= t[2].subcommands);
        assert(str_views(specs@[3].aliases@) =~= t[3].aliases);
        assert(str_views(specs@[3].subcommands@) =~= t[3].subcommands);
        assert(str_views(specs@[4].aliases@) =~= t[4].aliases);
        assert(str_views(specs@[4].subcommands@) =~= t[4].subcommands);
    }
    specs
}

/// Whether `command` names the command `spec`, by its name or an alias.
pub open spec fn names_command(spec: CommandSpecView, command: Seq<char>) -> bool {
    spec.name == command || spec.aliases.contains(command)
}

/// The index of the first built-in command that `command` names, if any.
pub open spec fn resolve_index(command: Seq<char>) -> Option<int> {
    if exists|i: int| 0 <= i < command_table().len() && names_command(command_table()[i], command) {
        Some(
            choose|i: int|
                0 <= i < command_table().len() && names_command(command_table()[i], command)
                    && forall|j: int|
                    0 <= j < i ==> !names_command(#[trigger] command_table()[j], command),
        )
    } else {
        None
    }
}

/// The canonical name of `command`: the name of the built-in command it
/// names, or `command` itself.
pub open spec fn normalize_spec(command: Seq<char>) -> Seq<char> {
    match resolve_index(command) {
        Some(i) => command_table()[i].name,
        None => command,
    }
}

fn vec_contains_str(v: &Vec<&'static str>, s: &Vec<char>) -> (r: bool)
    ensures
        r == str_views(v@).contains(s@),
{
    let mut i: usize = 0;
    while i < v.len()
        invariant
            i <= v.len(),
            forall|j: int| 0 <= j < i ==> v@[j]@ != s@,
        decreases v.len() - i,
    {
        if chars_eq_str(s, v[i]) {
            assert(str_views(v@)[i as int] == s@);
            return true;
        }
        i = i + 1;
    }
    assert forall|j: int| 0 <= j < str_views(v@).len() implies str_views(v@)[j] != s@ by {
        assert(str_views(v@)[j] == v@[j]@);
    }
    false
}

/// The built-in command that `command` names (by name or alias), if any.
pub fn resolve_command(command: &str) -> (r: Option<CommandSpec>)
    ensures
        match resolve_index(command@) {
            Some(i) => r is Some && r->0@ == command_table()[i],
            None => r is None,
        },
{
    let cmd = chars_of(command);
    let specs = command_specs();
    let mut i: usize = 0;
    while i < specs.len()
        invariant
            i <= specs@.len() == command_table().len(),
            cmd@ == command@,
            forall|k: int| 0 <= k < specs@.len() ==> #[trigger] specs@[k]@ == command_table()[k],
            forall|j: int| 0 <= j < i ==> !names_command(#[trigger] command_table()[j], command@),
        decreases specs.len() - i,
    {
        let hit = chars_eq_str(&cmd, specs[i].name) || vec_contains_str(&specs[i].aliases, &cmd);
        assert(hit == names_command(command_table()[i as int], command@)) by {
            assert(specs@[i as int]@ == command_table()[i as int]);
        }
        if hit {
            let mut specs = specs;
            let found = specs.swap_remove(i);
            proof {
                let w = resolve_index(command@);
                assert(w is Some);
                let wi = w->0;
                if wi < i {
                    assert(!names_command(command_table()[wi], command@));
                } else if wi > i {
                    assert(!names_command(command_table()[i as int], command@));
                }
            }
            return Some(found);
        }
        i = i + 1;
    }
    None
}

/// The canonical name of `command` (`config` and `cfg` become
/// `configuration`); a word that names no built-in command is returned as is.
pub fn normalize_command(command: &str) -> (r: String)
    ensures
        r@ == normalize_spec(command@),
{
    match resolve_command(command) {
        Some(spec) => spec.name.to_owned(),
        None => command.to_owned(),
    }
}


/// Where and how long a command runs: `net_as` names a peer (`lan:<host>`)
/// to run it on, `net_timeout_ms` bounds the wait for its reply.
pub struct ExecutionContext {
    pub net_as: Option<String>,
    pub net_timeout_ms: Option<u64>,
}

/// The character sequences of a list of strings.
pub open spec fn string_views(v: Seq<String>) -> Seq<Seq<char>> {
    v.map_values(|x: String| x@)
}

/// What [`parse_execution_context`] yields: the remaining words, the route
/// and the timeout, or an error message.
pub type ParsedContext = Result<(Seq<Seq<char>>, Option<Seq<char>>, Option<u64>), Seq<char>>;

/// Reads the words of `parts` from index `i` on, given what was gathered
/// before `i`: `--net:as <v>` sets the route (which must begin with `lan:`),
/// `--net:timeout <n>` sets the timeout (a decimal `u64`); any other word is kept.
/// A later flag of the same kind replaces an earlier one.
pub open spec fn parse_context_from(
    parts: Seq<Seq<char>>,
    i: int,
    cleaned: Seq<Seq<char>>,
    net_as: Option<Seq<char>>,
    timeout: Option<u64>,
) -> ParsedContext
    decreases parts.len() - i,
{
    if i < 0 || i >= parts.len() {
        Ok((cleaned, net_as, timeout))
    } else if parts[i] == "--net:as"@ {
        if i + 1 >= parts.len() {
            Err("Usage: --net:as lan:<host/ip/alias>"@)
        } else if !is_prefix("lan:"@, parts[i + 1]) {
            Err("Unsupported --net:as target. Use lan:<host/ip/alias> (wan: coming later)"@)
        } else {
            parse_context_from(parts, i + 2, cleaned, Some(parts[i + 1]), timeout)
        }
    } else if parts[i] == "--net:timeout"@ {
        if i + 1 >= parts.len() {
            Err("Usage: --net:timeout <milliseconds>"@)
        } else {
            match parse_u64_spec(parts[i + 1]) {
                Some(ms) => parse_context_from(parts, i + 2, cleaned, net_as, Some(ms)),
                None => Err("Invalid --net:timeout value. Use an integer in milliseconds"@),
            }
        }
    } else {
        parse_context_from(parts, i + 1, cleaned.push(parts[i]), net_as, timeout)
    }
}

/// The global flags of a command line, read from its words.
pub open spec fn parse_context_spec(parts: Seq<Seq<char>>) -> ParsedContext {
    parse_context_from(parts, 0, Seq::empty(), None, None)
}

/// Removes the global `--net:as` and `--net:timeout` flags (with their values)
/// from the words of a command line and returns the other words together with
/// the execution context that the flags describe, or the error message of the
/// first malformed flag.
pub fn parse_execution_context(parts: &[String]) -> (r: Result<(Vec<String>, ExecutionContext), String>)
    ensures
        match parse_context_spec(string_views(parts@)) {
            Ok((cleaned, net_as, timeout)) => r is Ok && string_views(r->Ok_0.0@) == cleaned
                && match net_as {
                Some(v) => r->Ok_0.1.net_as is Some && r->Ok_0.1.net_as->0@ == v,
                None => r->Ok_0.1.net_as is None,
            } && r->Ok_0.1.net_timeout_ms == timeout,
            Err(msg) => r is Err && r->Err_0@ == msg,
        },
{
    let ghost ps = string_views(parts@);
    let mut cleaned: Vec<String> = Vec::new();
    let mut net_as: Option<String> = None;
    let mut net_timeout_ms: Option<u64> = None;
    let mut i: usize = 0;
    let flag_as = chars_of("--net:as");
    let flag_timeout = chars_of("--net:timeout");
    let lan_prefix = chars_of("lan:");
    assert(string_views(cleaned@) =~= Seq::<Seq<char>>::empty());
    while i < parts.len()
        invariant
            i <= parts@.len(),
            ps == string_views(parts@),
            flag_as@ == "--net:as"@,
            flag_timeout@ == "--net:timeout"@,
            lan_prefix@ == "lan:"@,
            parse_context_spec(ps) == parse_context_from(
                ps,
                i as int,
                string_views(cleaned@),
                match net_as {
                    Some(v) => Some(v@),
                    None => None,
                },
                net_timeout_ms,
            ),
        decreases parts.len() - i,
    {
        let word = chars_of(parts[i].as_str());
        assert(word@ == ps[i as int]);
        if crate::text::chars_eq(&word, &flag_as) {
            if i + 1 >= parts.len() {
                return Err("Usage: --net:as lan:<host/ip/alias>".to_owned());
            }
            let value = chars_of(parts[i + 1].as_str());
            assert(value@ == ps[i + 1]);
            if !starts_with(&value, &lan_prefix) {
                return Err(
                    "Unsupported --net:as target. Use lan:<host/ip/alias> (wan: coming later)".to_owned(),
                );
            }
            net_as = Some(parts[i + 1].clone());
            i = i + 2;
            continue;
        }
        if crate::text::chars_eq(&word, &flag_timeout) {
            if i + 1 >= parts.len() {
                return Err("Usage: --net:timeout <milliseconds>".to_owned());
            }
            let value = chars_of(parts[i + 1].as_str());
            assert(value@ == ps[i + 1]);
            match parse_u64(&value) {
                Some(ms) => {
                    net_timeout_ms = Some(ms);
                },
                None => {
                    return Err("Invalid --net:timeout value. Use an integer in milliseconds".to_owned());
                },
            }
            i = i + 2;
            continue;
        }
        let ghost before = string_views(cleaned@);
        cleaned.push(parts[i].clone());
        assert(string_views(cleaned@) =~= before.push(ps[i as int]));
        i = i + 1;
    }
    Ok((cleaned, ExecutionContext { net_as, net_timeout_ms }))
}


proof fn lemma_parse_context_from_clean(
    parts: Seq<Seq<char>>,
    i: int,
    cleaned: Seq<Seq<char>>,
    net_as: Option<Seq<char>>,
    timeout: Option<u64>,
)
    requires
        0 <= i,
        forall|k: int| 0 <= k < cleaned.len() ==> #[trigger] cleaned[k] != "--net:as"@
            && cleaned[k] != "--net:timeout"@,
    ensures
        parse_context_from(parts, i, cleaned, net_as, timeout) matches Ok((c, _, _)) ==> forall|
            k: int,
        | 0 <= k < c.len() ==> #[trigger] c[k] != "--net:as"@ && c[k] != "--net:timeout"@,
    decreases parts.len() - i,
{
    if i < parts.len() {
        if parts[i] == "--net:as"@ {
            if i + 1 < parts.len() && is_prefix("lan:"@, parts[i + 1]) {
                lemma_parse_context_from_clean(parts, i + 2, cleaned, Some(parts[i + 1]), timeout);
            }
        } else if parts[i] == "--net:timeout"@ {
            if i + 1 < parts.len() {
                if let Some(ms) = parse_u64_spec(parts[i + 1]) {
                    lemma_parse_context_from_clean(parts, i + 2, cleaned, net_as, Some(ms));
                }
            }
        } else {
            let c2 = cleaned.push(parts[i]);
            assert forall|k: int| 0 <= k < c2.len() implies #[trigger] c2[k] != "--net:as"@
                && c2[k] != "--net:timeout"@ by {
                if k < cleaned.len() {
                    assert(c2[k] == cleaned[k]);
                }
            }
            lemma_parse_context_from_clean(parts, i + 1, c2, net_as, timeout);
        }
    }
}

/// The words that a successful parse of the global flags hands on never
/// include a flag itself: every `--net:as` and `--net:timeout` is consumed.
pub proof fn law_parsed_words_hold_no_flags(parts: Seq<Seq<char>>)
    ensures
        parse_context_spec(parts) matches Ok((cleaned, _, _)) ==> forall|k: int|
            0 <= k < cleaned.len() ==> #[trigger] cleaned[k] != "--net:as"@ && cleaned[k]
                != "--net:timeout"@,
{
    lemma_parse_context_from_clean(parts, 0, Seq::empty(), None, None);
}

proof fn lemma_parse_context_from_plain(
    parts: Seq<Seq<char>>,
    i: int,
    net_as: Option<Seq<char>>,
    timeout: Option<u64>,
)
    requires
        0 <= i <= parts.len(),
        forall|k: int| 0 <= k < parts.len() ==> #[trigger] parts[k] != "--net:as"@ && parts[k]
            != "--net:timeout"@,
    ensures
        parse_context_from(parts, i, parts.take(i), net_as, timeout) == Ok::<
            (Seq<Seq<char>>, Option<Seq<char>>, Option<u64>),
            Seq<char>,
        >((parts, net_as, timeout)),
    decreases parts.len() - i,
{
    if i < parts.len() {
        assert(parts.take(i).push(parts[i]) =~= parts.take(i + 1));
        lemma_parse_context_from_plain(parts, i + 1, net_as, timeout);
    } else {
        assert(parts.take(i) =~= parts);
    }
}

/// A command line without global flags keeps all its words and runs locally
/// with no timeout.
pub proof fn law_no_flags_means_local(parts: Seq<Seq<char>>)
    requires
        forall|k: int| 0 <= k < parts.len() ==> #[trigger] parts[k] != "--net:as"@ && parts[k]
            != "--net:timeout"@,
    ensures
        parse_context_spec(parts) == Ok::<(Seq<Seq<char>>, Option<Seq<char>>, Option<u64>), Seq<char>>(
            (parts, None, None),
        ),
{
    assert(parts.take(0) =~= Seq::<Seq<char>>::empty());
    lemma_parse_context_from_plain(parts, 0, None, None);
}

proof fn lemma_command_names_distinct()
    ensures
        "help"@ != "ping"@,
        "help"@ != "configuration"@,
        "help"@ != "config"@,
        "help"@ != "cfg"@,
        "help"@ != "module"@,
        "help"@ != "quit"@,
        "ping"@ != "configuration"@,
        "ping"@ != "config"@,
        "ping"@ != "cfg"@,
        "ping"@ != "module"@,
        "ping"@ != "quit"@,
        "configuration"@ != "module"@,
        "configuration"@ != "quit"@,
        "config"@ != "module"@,
        "config"@ != "quit"@,
        "cfg"@ != "module"@,
        "cfg"@ != "quit"@,
        "module"@ != "quit"@,
{
    reveal_strlit("help");
    reveal_strlit("ping");
    reveal_strlit("configuration");
    reveal_strlit("config");
    reveal_strlit("cfg");
    reveal_strlit("module");
    reveal_strlit("quit");
    assert("help"@.len() != "configuration"@.len());
    assert("help"@[0] != "ping"@[0]);
    assert("help"@[0] != "config"@[0]);
    assert("help"@[0] != "cfg"@[0]);
    assert("help"@[0] != "module"@[0]);
    assert("help"@[0] != "quit"@[0]);
    assert("ping"@[0] != "configuration"@[0]);
    assert("ping"@[0] != "config"@[0]);
    assert("ping"@[0] != "cfg"@[0]);
    assert("ping"@[0] != "module"@[0]);
    assert("ping"@[0] != "quit"@[0]);
    assert("configuration"@[0] != "module"@[0]);
    assert("configuration"@[0] != "quit"@[0]);
    assert("config"@[0] != "module"@[0]);
    assert("config"@[0] != "quit"@[0]);
    assert("cfg"@[0] != "module"@[0]);
    assert("cfg"@[0] != "quit"@[0]);
    assert("module"@[0] != "quit"@[0]);
}

/// Each built-in command's canonical name resolves to that command.
pub proof fn lemma_name_resolves_to_itself(i: int)
    requires
        0 <= i < command_table().len(),
    ensures
        resolve_index(command_table()[i].name) == Some(i),
{
    lemma_command_names_distinct();
    let t = command_table();
    let n = t[i].name;
    assert(names_command(t[i], n));
    assert forall|j: int| 0 <= j < i implies !names_command(#[trigger] t[j], n) by {
        assert(t[j].aliases.len() == 0 ==> !t[j].aliases.contains(n));
        if j == 2 {
            assert(t[2].aliases =~= seq!["config"@, "cfg"@]);
            if t[2].aliases.contains(n) {
                let k = choose|k: int| 0 <= k < t[2].aliases.len() && t[2].aliases[k] == n;
                assert(k == 0 || k == 1);
            }
        }
    }
    let r = resolve_index(n);
    assert(r is Some);
    let ri = r->0;
    if ri < i {
        assert(!names_command(t[ri], n));
    } else if ri > i {
        assert(!names_command(t[i], n));
    }
}

/// Normalizing a command word twice gives what normalizing it once gives.
pub proof fn law_normalize_idempotent(command: Seq<char>)
    ensures
        normalize_spec(normalize_spec(command)) == normalize_spec(command),
{
    match resolve_index(command) {
        Some(i) => {
            lemma_name_resolves_to_itself(i);
        },
        None => {},
    }
}


/// What parsing the rest of a line gives, once the words `cleaned` and the
/// flag values `net_as` and `timeout` read before it are taken into account:
/// the words are kept in front, and a value set by the rest replaces an
/// earlier one.
pub open spec fn after_earlier(
    cleaned: Seq<Seq<char>>,
    net_as: Option<Seq<char>>,
    timeout: Option<u64>,
    rest: ParsedContext,
) -> ParsedContext {
    match rest {
        Ok((c, na, t)) => Ok(
            (
                cleaned + c,
                if na is Some {
                    na
                } else {
                    net_as
                },
                if t is Some {
                    t
                } else {
                    timeout
                },
            ),
        ),
        Err(e) => Err(e),
    }
}

proof fn lemma_parse_from_shift(parts: Seq<Seq<char>>, i: int, j: int, cleaned: Seq<Seq<char>>, net_as: Option<Seq<char>>, timeout: Option<u64>)
    requires
        0 <= i <= parts.len(),
        0 <= j,
    ensures
        parse_context_from(parts, i + j, cleaned, net_as, timeout) == parse_context_from(
            parts.skip(i),
            j,
            cleaned,
            net_as,
            timeout,
        ),
    decreases parts.len() - (i + j),
{
    let s = parts.skip(i);
    if i + j < parts.len() {
        assert(s[j] == parts[i + j]);
        if j + 1 < s.len() {
            assert(s[j + 1] == parts[i + j + 1]);
        }
        lemma_parse_from_shift(parts, i, j + 1, cleaned.push(parts[i + j]), net_as, timeout);
        if j + 1 < s.len() {
            lemma_parse_from_shift(parts, i, j + 2, cleaned, Some(parts[i + j + 1]), timeout);
            match parse_u64_spec(parts[i + j + 1]) {
                Some(ms) => lemma_parse_from_shift(parts, i, j + 2, cleaned, net_as, Some(ms)),
                None => {},
            }
        }
    }
}

proof fn lemma_parse_from_accumulates(s: Seq<Seq<char>>, j: int, cleaned: Seq<Seq<char>>, net_as: Option<Seq<char>>, timeout: Option<u64>)
    requires
        0 <= j,
    ensures
        parse_context_from(s, j, cleaned, net_as, timeout) == after_earlier(
            cleaned,
            net_as,
            timeout,
            parse_context_from(s, j, Seq::empty(), None, None),
        ),
    decreases s.len() - j,
{
    if j >= s.len() {
        assert(cleaned + Seq::<Seq<char>>::empty() =~= cleaned);
    } else if s[j] == "--net:as"@ {
        if j + 1 < s.len() && is_prefix("lan:"@, s[j + 1]) {
            let v = Some(s[j + 1]);
            lemma_parse_from_accumulates(s, j + 2, cleaned, v, timeout);
            lemma_parse_from_accumulates(s, j + 2, Seq::empty(), v, None);
            match parse_context_from(s, j + 2, Seq::empty(), None, None) {
                Ok((c2, na2, t2)) => {
                    assert(Seq::<Seq<char>>::empty() + c2 =~= c2);
                },
                Err(_) => {},
            }
        }
    } else if s[j] == "--net:timeout"@ {
        if j + 1 < s.len() {
            match parse_u64_spec(s[j + 1]) {
                Some(ms) => {
                    lemma_parse_from_accumulates(s, j + 2, cleaned, net_as, Some(ms));
                    lemma_parse_from_accumulates(s, j + 2, Seq::empty(), None, Some(ms));
                    match parse_context_from(s, j + 2, Seq::empty(), None, None) {
                        Ok((c2, na2, t2)) => {
                            assert(Seq::<Seq<char>>::empty() + c2 =~= c2);
                        },
                        Err(_) => {},
                    }
                },
                None => {},
            }
        }
    } else {
        let w = s[j];
        lemma_parse_from_accumulates(s, j + 1, cleaned.push(w), net_as, timeout);
        lemma_parse_from_accumulates(s, j + 1, Seq::empty().push(w), None, None);
        match parse_context_from(s, j + 1, Seq::empty(), None, None) {
            Ok((c2, na2, t2)) => {
                assert(cleaned.push(w) + c2 =~= cleaned + (Seq::empty().push(w) + c2));
            },
            Err(_) => {},
        }
    }
}

/// The words of a line after its first `k` words, parsed on their own, and
/// what the first `k` words left behind.
proof fn lemma_parse_after(parts: Seq<Seq<char>>, k: int, cleaned: Seq<Seq<char>>, net_as: Option<Seq<char>>, timeout: Option<u64>)
    requires
        0 <= k <= parts.len(),
    ensures
        parse_context_from(parts, k, cleaned, net_as, timeout) == after_earlier(
            cleaned,
            net_as,
            timeout,
            parse_context_spec(parts.skip(k)),
        ),
{
    lemma_parse_from_accumulates(parts, k, cleaned, net_as, timeout);
    lemma_parse_from_shift(parts, k, 0, Seq::empty(), None, None);
}

/// A line without words parses to no words, no route and no timeout.
pub proof fn law_parse_empty()
    ensures
        parse_context_spec(Seq::empty()) == Ok::<(Seq<Seq<char>>, Option<Seq<char>>, Option<u64>), Seq<char>>(
            (Seq::empty(), None, None),
        ),
{
}

/// A word that is not a flag is kept, in front of the words kept from the
/// rest of the line; the route, the timeout and any error come from the rest.
pub proof fn law_plain_word_is_kept(w: Seq<char>, rest: Seq<Seq<char>>)
    requires
        w != "--net:as"@,
        w != "--net:timeout"@,
    ensures
        parse_context_spec(seq![w] + rest) == match parse_context_spec(rest) {
            Ok((c, na, t)) => Ok((seq![w] + c, na, t)),
            Err(e) => Err(e),
        },
{
    let parts = seq![w] + rest;
    assert(parts[0] == w);
    lemma_parse_after(parts, 1, seq![w], None, None);
    assert(parts.skip(1) =~= rest);
    assert(Seq::<Seq<char>>::empty().push(w) =~= seq![w]);
}

/// `--net:as` needs a value beginning with `lan:`: without a value the line
/// is refused with the usage, with another value as unsupported, whatever
/// follows. Otherwise the flag and its value are dropped from the words, and
/// the value is the route unless a later `--net:as` replaces it; an error
/// further on still refuses the line.
pub proof fn law_route_flag(v: Seq<char>, rest: Seq<Seq<char>>)
    ensures
        parse_context_spec(seq!["--net:as"@]) == Err::<(Seq<Seq<char>>, Option<Seq<char>>, Option<u64>), Seq<char>>(
            "Usage: --net:as lan:<host/ip/alias>"@,
        ),
        parse_context_spec(seq!["--net:as"@, v] + rest) == if !is_prefix("lan:"@, v) {
            Err("Unsupported --net:as target. Use lan:<host/ip/alias> (wan: coming later)"@)
        } else {
            match parse_context_spec(rest) {
                Ok((c, na, t)) => Ok(
                    (
                        c,
                        if na is Some {
                            na
                        } else {
                            Some(v)
                        },
                        t,
                    ),
                ),
                Err(e) => Err(e),
            }
        },
{
    let parts = seq!["--net:as"@, v] + rest;
    assert(parts[0] == "--net:as"@);
    assert(parts[1] == v);
    lemma_parse_after(parts, 2, Seq::empty(), Some(v), None);
    assert(parts.skip(2) =~= rest);
    match parse_context_spec(rest) {
        Ok((c, na, t)) => {
            assert(Seq::<Seq<char>>::empty() + c =~= c);
        },
        Err(_) => {},
    }
}

/// `--net:timeout` needs a decimal `u64` value: without a value the line is
/// refused with the usage, with another value as invalid, whatever follows.
/// Otherwise the flag and its value are dropped from the words, and the
/// value is the timeout unless a later `--net:timeout` replaces it; an error
/// further on still refuses the line.
pub proof fn law_timeout_flag(v: Seq<char>, rest: Seq<Seq<char>>)
    ensures
        parse_context_spec(seq!["--net:timeout"@]) == Err::<(Seq<Seq<char>>, Option<Seq<char>>, Option<u64>), Seq<char>>(
            "Usage: --net:timeout <milliseconds>"@,
        ),
        parse_context_spec(seq!["--net:timeout"@, v] + rest) == match parse_u64_spec(v) {
            None => Err("Invalid --net:timeout value. Use an integer in milliseconds"@),
            Some(ms) => match parse_context_spec(rest) {
                Ok((c, na, t)) => Ok(
                    (
                        c,
                        na,
                        if t is Some {
                            t
                        } else {
                            Some(ms)
                        },
                    ),
                ),
                Err(e) => Err(e),
            },
        },
{
    reveal_strlit("--net:as");
    reveal_strlit("--net:timeout");
    assert("--net:timeout"@ != "--net:as"@) by {
        assert("--net:timeout"@.len() != "--net:as"@.len());
    }
    let parts = seq!["--net:timeout"@, v] + rest;
    assert(parts[0] == "--net:timeout"@);
    assert(parts[1] == v);
    assert(seq!["--net:timeout"@][0] == "--net:timeout"@);
    match parse_u64_spec(v) {
        Some(ms) => {
            lemma_parse_after(parts, 2, Seq::empty(), None, Some(ms));
            assert(parts.skip(2) =~= rest);
            match parse_context_spec(rest) {
                Ok((c, na, t)) => {
                    assert(Seq::<Seq<char>>::empty() + c =~= c);
                },
                Err(_) => {},
            }
        },
        None => {},
    }
}


/// Only the word `quit` itself stands for `quit`: it has no alias, and no
/// other command's name or alias is `quit`.
pub proof fn lemma_normalize_to_quit(w: Seq<char>)
    ensures
        normalize_spec(w) == "quit"@ <==> w == "quit"@,
{
    lemma_command_names_distinct();
    lemma_name_resolves_to_itself(4);
    let t = command_table();
    match resolve_index(w) {
        Some(i) => {
            assert(0 <= i < t.len() && names_command(t[i], w));
            if t[i].name == "quit"@ {
                assert(i == 4);
                assert(t[4].aliases.len() == 0);
                assert(w == "quit"@);
            }
            if w == "quit"@ {
                assert(resolve_index("quit"@) == Some(4int));
            }
        },
        None => {},
    }
}


/// The words that name a built-in command, by name or alias.
pub open spec fn builtin_words() -> Seq<Seq<char>> {
    seq!["help"@, "ping"@, "configuration"@, "config"@, "cfg"@, "module"@, "quit"@]
}

/// A word resolves to a built-in command exactly when it is one of the
/// built-in names or aliases (compared case-sensitively), and the command it
/// resolves to is one that it names.
pub proof fn law_resolves_exactly_builtin_words(command: Seq<char>)
    ensures
        resolve_index(command) is Some <==> builtin_words().contains(command),
        resolve_index(command) matches Some(i) ==> 0 <= i < command_table().len() && names_command(
            command_table()[i],
            command,
        ),
{
    let t = command_table();
    let w = builtin_words();
    assert(t[2].aliases =~= seq!["config"@, "cfg"@]);
    if w.contains(command) {
        let k = choose|k: int| 0 <= k < w.len() && w[k] == command;
        let i: int = if k <= 1 {
            k
        } else if k <= 4 {
            2
        } else {
            k - 2
        };
        if k == 3 {
            assert(t[2].aliases[0] == command);
        }
        if k == 4 {
            assert(t[2].aliases[1] == command);
        }
        assert(names_command(t[i], command));
    }
    match resolve_index(command) {
        Some(i) => {
            assert(names_command(t[i], command));
            if i == 2 && t[2].aliases.contains(command) {
                let a = choose|a: int| 0 <= a < t[2].aliases.len() && t[2].aliases[a] == command;
                assert(a == 0 ==> w[3] == command);
                assert(a == 1 ==> w[4] == command);
            } else {
                assert(t[i].aliases.len() == 0 || i == 2);
                assert(i == 0 ==> w[0] == command);
                assert(i == 1 ==> w[1] == command);
                assert(i == 2 ==> w[2] == command);
                assert(i == 3 ==> w[5] == command);
                assert(i == 4 ==> w[6] == command);
            }
        },
        None => {},
    }
}


/// Whether `w` is one of the global flags.
pub open spec fn is_global_flag(w: Seq<char>) -> bool {
    w == "--net:as"@ || w == "--net:timeout"@
}

/// The words of `parts`, read left to right, with each global flag and the
/// word after it taken out; order is kept.
pub open spec fn words_without_flags(parts: Seq<Seq<char>>) -> Seq<Seq<char>>
    decreases parts.len(),
{
    if parts.len() == 0 {
        Seq::empty()
    } else if is_global_flag(parts[0]) {
        if parts.len() >= 2 {
            words_without_flags(parts.skip(2))
        } else {
            Seq::empty()
        }
    } else {
        seq![parts[0]] + words_without_flags(parts.skip(1))
    }
}

/// The word after the last `--net:as` that the left-to-right reading of
/// `parts` consumes, if any.
pub open spec fn last_route(parts: Seq<Seq<char>>) -> Option<Seq<char>>
    decreases parts.len(),
{
    if parts.len() == 0 {
        None
    } else if is_global_flag(parts[0]) {
        if parts.len() >= 2 {
            let later = last_route(parts.skip(2));
            if later is Some {
                later
            } else if parts[0] == "--net:as"@ {
                Some(parts[1])
            } else {
                None
            }
        } else {
            None
        }
    } else {
        last_route(parts.skip(1))
    }
}

/// The value of the word after the last `--net:timeout` that the
/// left-to-right reading of `parts` consumes, if any.
pub open spec fn last_timeout(parts: Seq<Seq<char>>) -> Option<u64>
    decreases parts.len(),
{
    if parts.len() == 0 {
        None
    } else if is_global_flag(parts[0]) {
        if parts.len() >= 2 {
            let later = last_timeout(parts.skip(2));
            if later is Some {
                later
            } else if parts[0] == "--net:timeout"@ {
                parse_u64_spec(parts[1])
            } else {
                None
            }
        } else {
            None
        }
    } else {
        last_timeout(parts.skip(1))
    }
}

/// The message of the first malformed flag, reading `parts` left to right
/// with each flag consuming the word after it: a flag without a word after
/// it, a route not beginning with `lan:`, or a timeout that is not a
/// decimal `u64`.
pub open spec fn first_flag_error(parts: Seq<Seq<char>>) -> Option<Seq<char>>
    decreases parts.len(),
{
    if parts.len() == 0 {
        None
    } else if parts[0] == "--net:as"@ {
        if parts.len() < 2 {
            Some("Usage: --net:as lan:<host/ip/alias>"@)
        } else if !is_prefix("lan:"@, parts[1]) {
            Some("Unsupported --net:as target. Use lan:<host/ip/alias> (wan: coming later)"@)
        } else {
            first_flag_error(parts.skip(2))
        }
    } else if parts[0] == "--net:timeout"@ {
        if parts.len() < 2 {
            Some("Usage: --net:timeout <milliseconds>"@)
        } else if parse_u64_spec(parts[1]) is None {
            Some("Invalid --net:timeout value. Use an integer in milliseconds"@)
        } else {
            first_flag_error(parts.skip(2))
        }
    } else {
        first_flag_error(parts.skip(1))
    }
}

/// Reading the global flags fails exactly at the first malformed flag, with
/// its message; otherwise it keeps the other words in order, each flag and
/// its value taken out, the route is the value of the last `--net:as` and
/// the timeout that of the last `--net:timeout`.
pub proof fn law_parse_flags(parts: Seq<Seq<char>>)
    ensures
        parse_context_spec(parts) == match first_flag_error(parts) {
            Some(e) => Err(e),
            None => Ok((words_without_flags(parts), last_route(parts), last_timeout(parts))),
        },
    decreases parts.len(),
{
    reveal_strlit("--net:as");
    reveal_strlit("--net:timeout");
    assert("--net:timeout"@ != "--net:as"@) by {
        assert("--net:timeout"@.len() != "--net:as"@.len());
    }
    if parts.len() == 0 {
        law_parse_empty();
    } else if parts[0] == "--net:as"@ {
        if parts.len() < 2 {
            assert(parts =~= seq!["--net:as"@]);
            law_route_flag(Seq::empty(), Seq::empty());
        } else {
            let rest = parts.skip(2);
            assert(parts =~= seq!["--net:as"@, parts[1]] + rest);
            law_route_flag(parts[1], rest);
            law_parse_flags(rest);
        }
    } else if parts[0] == "--net:timeout"@ {
        if parts.len() < 2 {
            assert(parts =~= seq!["--net:timeout"@]);
            law_timeout_flag(Seq::empty(), Seq::empty());
        } else {
            let rest = parts.skip(2);
            assert(parts =~= seq!["--net:timeout"@, parts[1]] + rest);
            law_timeout_flag(parts[1], rest);
            law_parse_flags(rest);
        }
    } else {
        let rest = parts.skip(1);
        assert(parts =~= seq![parts[0]] + rest);
        law_plain_word_is_kept(parts[0], rest);
        law_parse_flags(rest);
    }
}

} // verus!
