//! Decisions of the desktop window around modules and the remote session:
//! which peer to follow at start-up, and what toggling a module row does.

use vstd::prelude::*;
use crate::cli::{normalize_first, plan_spec, CommandPlanView};
use crate::commands::{
    lemma_name_resolves_to_itself, law_no_flags_means_local, parse_context_spec, string_views,
};
use crate::modules::{module_plan, ModulePlan};
use crate::text::{
    chars_of, concat_str, join_spec, lemma_words_of_spaced, no_ws, push_chars, push_str, string_of,
    trim, trim_spec, words,
};

verus! {

/// The peer route to follow at start-up: the `ARCADIA_NET_AS` value when
/// that variable is set (ignored when blank, and then no saved route is
/// read), else the saved preferred route when it is not blank; trimmed.
pub open spec fn route_spec(env_route: Option<Seq<char>>, preferred: Option<Seq<char>>) -> Option<Seq<char>> {
    match env_route {
        Some(v) => if trim_spec(v).len() > 0 {
            Some(trim_spec(v))
        } else {
            None
        },
        None => match preferred {
            Some(p) => if trim_spec(p).len() > 0 {
                Some(trim_spec(p))
            } else {
                None
            },
            None => None,
        },
    }
}

fn trimmed_nonblank(s: &str) -> (r: Option<String>)
    ensures
        trim_spec(s@).len() > 0 ==> r is Some && r->0@ == trim_spec(s@),
        trim_spec(s@).len() == 0 ==> r is None,
{
    let t = trim(&chars_of(s));
    if t.len() > 0 {
        Some(string_of(&t))
    } else {
        None
    }
}

/// The route followed at start-up (see [`route_spec`]), kept only when the
/// LAN and remote-session modules are both enabled.
pub fn bootstrap_route(
    env_route: Option<&str>,
    preferred: Option<&str>,
    lan_enabled: bool,
    remote_session_enabled: bool,
) -> (r: Option<String>)
    ensures
        match (
            if lan_enabled && remote_session_enabled {
                route_spec(
                    match env_route {
                        Some(v) => Some(v@),
                        None => None,
                    },
                    match preferred {
                        Some(p) => Some(p@),
                        None => None,
                    },
                )
            } else {
                None
            }
        ) {
            Some(v) => r is Some && r->0@ == v,
            None => r is None,
        },
{
    let picked = match env_route {
        Some(v) => trimmed_nonblank(v),
        None => match preferred {
            Some(p) => trimmed_nonblank(p),
            None => None,
        },
    };
    if lan_enabled && remote_session_enabled {
        picked
    } else {
        None
    }
}

/// What clicking a module's switch does.
pub enum ModuleToggle {
    /// On a remote peer: ask it to set the module to `enabled`.
    RemotePatch { name: String, enabled: bool },
    /// Run this command line locally.
    RunCommand(String),
    /// Enabling locally: first find the modules it requires.
    CheckRequirements(String),
}

/// The command line that changes a module's state.
pub open spec fn module_command_spec(name: Seq<char>, enable: bool, with_requirements: bool) -> Seq<char> {
    "module "@ + name + if !enable {
        " disable"@
    } else if with_requirements {
        " enable -requirements"@
    } else {
        " enable"@
    }
}

/// The command line that changes a module's state.
pub fn module_command(name: &str, enable: bool, with_requirements: bool) -> (r: String)
    ensures
        r@ == module_command_spec(name@, enable, with_requirements),
{
    let a = concat_str("module ", name);
    if !enable {
        concat_str(a.as_str(), " disable")
    } else if with_requirements {
        concat_str(a.as_str(), " enable -requirements")
    } else {
        concat_str(a.as_str(), " enable")
    }
}

/// What clicking the switch of module `name` (now `enabled`) does: on a
/// remote peer, patch its state; locally, disable it, or check what it
/// requires before enabling it.
pub fn module_row_toggle(name: &str, enabled: bool, remote: bool) -> (r: ModuleToggle)
    ensures
        remote ==> (r matches ModuleToggle::RemotePatch { name: n, enabled: e } && n@ == name@ && e
            == !enabled),
        !remote && enabled ==> (r matches ModuleToggle::RunCommand(c) && c@ == module_command_spec(
            name@,
            false,
            false,
        )),
        !remote && !enabled ==> (r matches ModuleToggle::CheckRequirements(n) && n@ == name@),
{
    if remote {
        ModuleToggle::RemotePatch { name: name.to_owned(), enabled: !enabled }
    } else if enabled {
        ModuleToggle::RunCommand(module_command(name, false, false))
    } else {
        ModuleToggle::CheckRequirements(name.to_owned())
    }
}

/// What follows from looking up the modules that enabling a module requires.
pub enum RequirementsOutcome {
    /// Ask whether to enable the module with these missing requirements.
    Prompt(String, Vec<String>),
    /// Nothing is missing: run this command line.
    RunCommand(String),
    /// The lookup failed with this error.
    Failed(String),
}

/// What to do once the missing requirements of module `name` are known.
pub fn requirements_outcome(name: &str, missing: Result<Vec<String>, String>) -> (r: RequirementsOutcome)
    ensures
        match missing {
            Ok(m) => if m@.len() > 0 {
                r matches RequirementsOutcome::Prompt(n, ms) && n@ == name@ && string_views(ms@)
                    == string_views(m@)
            } else {
                r matches RequirementsOutcome::RunCommand(c) && c@ == module_command_spec(
                    name@,
                    true,
                    false,
                )
            },
            Err(e) => r matches RequirementsOutcome::Failed(f) && f@ == e@,
        },
{
    match missing {
        Ok(m) => if m.len() > 0 {
            RequirementsOutcome::Prompt(name.to_owned(), m)
        } else {
            RequirementsOutcome::RunCommand(module_command(name, true, false))
        },
        Err(e) => RequirementsOutcome::Failed(e),
    }
}

/// The question asked before enabling `name` together with its missing requirements.
pub fn requirements_prompt_text(name: &str, missing: &Vec<String>) -> (r: String)
    ensures
        r@ == "To enable "@ + name@ + ", Arcadia needs to enable: "@ + join_spec(
            string_views(missing@),
            ", "@,
        ) + "."@,
{
    let mut out = chars_of("To enable ");
    push_str(&mut out, name);
    push_str(&mut out, ", Arcadia needs to enable: ");
    let ghost all = string_views(missing@);
    let mut joined: Vec<char> = Vec::new();
    let mut i: usize = 0;
    while i < missing.len()
        invariant
            i <= missing.len(),
            all == string_views(missing@),
            joined@ == join_spec(all.take(i as int), ", "@),
        decreases missing.len() - i,
    {
        assert(all.take(i + 1).drop_last() =~= all.take(i as int));
        if i > 0 {
            push_str(&mut joined, ", ");
        }
        push_str(&mut joined, missing[i].as_str());
        i = i + 1;
        if i == 1 {
            assert(joined@ =~= all.take(1)[0]);
        }
    }
    assert(all.take(i as int) =~= all);
    push_chars(&mut out, &joined);
    push_str(&mut out, ".");
    string_of(&out)
}

/// The words a module switch writes: plain letters, no flag among them.
proof fn lemma_command_words()
    ensures
        "module"@.len() > 0 && no_ws("module"@),
        "enable"@.len() > 0 && no_ws("enable"@),
        "disable"@.len() > 0 && no_ws("disable"@),
        "-requirements"@.len() > 0 && no_ws("-requirements"@),
        "module"@ != "--net:as"@ && "module"@ != "--net:timeout"@,
        "enable"@ != "--net:as"@ && "enable"@ != "--net:timeout"@,
        "disable"@ != "--net:as"@ && "disable"@ != "--net:timeout"@,
        "-requirements"@ != "--net:as"@ && "-requirements"@ != "--net:timeout"@,
        "disable"@ != "enable"@,
        "module"@ != "configuration"@,
        "module "@ == "module"@ + " "@,
        " disable"@ == " "@ + "disable"@,
        " enable"@ == " "@ + "enable"@,
        " enable -requirements"@ == " "@ + "enable"@ + " "@ + "-requirements"@,
{
    reveal_strlit("module");
    reveal_strlit("enable");
    reveal_strlit("disable");
    reveal_strlit("-requirements");
    reveal_strlit("--net:as");
    reveal_strlit("--net:timeout");
    reveal_strlit("configuration");
    reveal_strlit("module ");
    reveal_strlit(" disable");
    reveal_strlit(" enable");
    reveal_strlit(" enable -requirements");
    reveal_strlit(" ");
    assert("module"@[0] != "--net:as"@[0]);
    assert("module"@[0] != "--net:timeout"@[0]);
    assert("enable"@[0] != "--net:as"@[0]);
    assert("enable"@[0] != "--net:timeout"@[0]);
    assert("disable"@[0] != "--net:as"@[0]);
    assert("disable"@[0] != "--net:timeout"@[0]);
    assert("-requirements"@[1] != "--net:as"@[1]);
    assert("-requirements"@[1] != "--net:timeout"@[1]);
    assert("disable"@[0] != "enable"@[0]);
    assert("module"@[0] != "configuration"@[0]);
    assert("module "@ =~= "module"@ + " "@);
    assert(" disable"@ =~= " "@ + "disable"@);
    assert(" enable"@ =~= " "@ + "enable"@);
    assert(" enable -requirements"@ =~= " "@ + "enable"@ + " "@ + "-requirements"@);
}

/// The command line that a module switch runs is read back as that very
/// request: a `module` command that sets module `name` to the state asked
/// for, with its requirements only when enabling with them. The name is a
/// single word that is not one of the global flags.
pub proof fn law_module_command_read_back(name: Seq<char>, enable: bool, with_requirements: bool)
    requires
        name.len() > 0,
        no_ws(name),
        name != "--net:as"@,
        name != "--net:timeout"@,
    ensures
        plan_spec(module_command_spec(name, enable, with_requirements)) matches CommandPlanView::Module(p)
            && module_plan(p) == ModulePlan::SetState(name, enable, enable && with_requirements),
{
    lemma_command_words();
    let parts: Seq<Seq<char>> = if !enable {
        seq!["module"@, name, "disable"@]
    } else if with_requirements {
        seq!["module"@, name, "enable"@, "-requirements"@]
    } else {
        seq!["module"@, name, "enable"@]
    };
    let line = module_command_spec(name, enable, with_requirements);
    assert(line =~= join_spec(parts, " "@)) by {
        reveal_with_fuel(join_spec, 5);
    }
    assert forall|k: int| 0 <= k < parts.len() implies #[trigger] parts[k].len() > 0 && no_ws(
        parts[k],
    ) by {}
    lemma_words_of_spaced(parts);
    assert(words(trim_spec(line)) == parts);
    assert forall|k: int| 0 <= k < parts.len() implies #[trigger] parts[k] != "--net:as"@ && parts[k]
        != "--net:timeout"@ by {}
    law_no_flags_means_local(parts);
    lemma_name_resolves_to_itself(3);
    assert(normalize_first(parts) =~= parts);
}

} // verus!
