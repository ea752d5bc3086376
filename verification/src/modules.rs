//! The `module <name> enable|disable` command.

use vstd::prelude::*;
use crate::commands::string_views;
use crate::config::{bullets, push_bullets, slice_views};
use crate::text::{chars_eq_str, chars_of, concat_str};

verus! {

/// What a `module ...` command asks for.
pub enum ModuleRequest {
    /// Enable or disable a module, possibly with the modules it requires.
    SetState { name: String, enabled: bool, with_requirements: bool },
    /// Print the usage and the list of modules.
    ListModules,
    /// Print the usage.
    Usage,
}

/// The abstract content of a [`ModuleRequest`].
pub enum ModulePlan {
    SetState(Seq<char>, bool, bool),
    ListModules,
    Usage,
}

impl View for ModuleRequest {
    type V = ModulePlan;

    open spec fn view(&self) -> ModulePlan {
        match self {
            ModuleRequest::SetState { name, enabled, with_requirements } => ModulePlan::SetState(
                name@,
                *enabled,
                *with_requirements,
            ),
            ModuleRequest::ListModules => ModulePlan::ListModules,
            ModuleRequest::Usage => ModulePlan::Usage,
        }
    }
}

/// What the words `p` of a `module ...` command ask for.
pub open spec fn module_plan(p: Seq<Seq<char>>) -> ModulePlan {
    if p.len() == 0 || p[0] != "module"@ {
        ModulePlan::Usage
    } else if p.len() == 1 {
        ModulePlan::ListModules
    } else if p.len() == 3 && p[2] == "enable"@ {
        ModulePlan::SetState(p[1], true, false)
    } else if p.len() == 4 && p[2] == "enable"@ && p[3] == "-requirements"@ {
        ModulePlan::SetState(p[1], true, true)
    } else if p.len() == 3 && p[2] == "disable"@ {
        ModulePlan::SetState(p[1], false, false)
    } else {
        ModulePlan::Usage
    }
}

/// Decides what the words of a `module ...` command ask for.
pub fn handle_module(parts: &[&str]) -> (r: ModuleRequest)
    ensures
        r@ == module_plan(slice_views(parts@)),
{
    let ghost p = slice_views(parts@);
    let n = parts.len();
    if n == 0 {
        return ModuleRequest::Usage;
    }
    let w0 = chars_of(parts[0]);
    assert(w0@ == p[0]);
    if !chars_eq_str(&w0, "module") {
        return ModuleRequest::Usage;
    }
    if n == 1 {
        return ModuleRequest::ListModules;
    }
    if n == 3 || n == 4 {
        let w2 = chars_of(parts[2]);
        assert(w2@ == p[2]);
        if chars_eq_str(&w2, "enable") {
            if n == 3 {
                return ModuleRequest::SetState {
                    name: parts[1].to_owned(),
                    enabled: true,
                    with_requirements: false,
                };
            }
            let w3 = chars_of(parts[3]);
            assert(w3@ == p[3]);
            if chars_eq_str(&w3, "-requirements") {
                return ModuleRequest::SetState {
                    name: parts[1].to_owned(),
                    enabled: true,
                    with_requirements: true,
                };
            }
            return ModuleRequest::Usage;
        }
        if n == 3 && chars_eq_str(&w2, "disable") {
            return ModuleRequest::SetState {
                name: parts[1].to_owned(),
                enabled: false,
                with_requirements: false,
            };
        }
    }
    ModuleRequest::Usage
}

/// The usage line of the `module` command.
pub open spec fn module_usage() -> Seq<char> {
    "Usage: module <name> enable [-requirements]|disable"@
}

/// The line that answers a change of a module's state.
pub open spec fn module_state_spec(
    name: Seq<char>,
    enabled: bool,
    with_requirements: bool,
    result: Result<(), Seq<char>>,
) -> Seq<char> {
    match result {
        Ok(_) => if enabled && with_requirements {
            "Module "@ + name + " enabled (requirements enabled)"@
        } else if enabled {
            "Module "@ + name + " enabled"@
        } else {
            "Module "@ + name + " disabled"@
        },
        Err(e) => e,
    }
}

/// The line that answers a change of a module's state, given its result.
pub fn module_state_response(
    name: &str,
    enabled: bool,
    with_requirements: bool,
    result: &Result<(), String>,
) -> (line: String)
    ensures
        line@ == module_state_spec(
            name@,
            enabled,
            with_requirements,
            match result {
                Ok(_) => Ok(()),
                Err(e) => Err(e@),
            },
        ),
{
    match result {
        Ok(_) => {
            let a = concat_str("Module ", name);
            if enabled && with_requirements {
                concat_str(a.as_str(), " enabled (requirements enabled)")
            } else if enabled {
                concat_str(a.as_str(), " enabled")
            } else {
                concat_str(a.as_str(), " disabled")
            }
        },
        Err(e) => e.clone(),
    }
}

/// The lines that answer a bare `module`: the usage, then the modules when
/// there are any, or why they could not be listed.
pub open spec fn list_modules_spec(keys: Result<Seq<Seq<char>>, Seq<char>>) -> Seq<Seq<char>> {
    seq![module_usage()] + match keys {
        Ok(ks) => if ks.len() > 0 {
            seq!["Available modules:"@] + bullets(ks)
        } else {
            Seq::empty()
        },
        Err(e) => seq!["Failed to list modules: "@ + e],
    }
}

/// The lines that answer a bare `module`, given the result of listing the modules.
pub fn list_modules_lines(keys: &Result<Vec<String>, String>) -> (lines: Vec<String>)
    ensures
        string_views(lines@) == list_modules_spec(
            match keys {
                Ok(k) => Ok(string_views(k@)),
                Err(e) => Err(e@),
            },
        ),
{
    let mut lines: Vec<String> = Vec::new();
    lines.push("Usage: module <name> enable [-requirements]|disable".to_owned());
    let ghost first = string_views(lines@);
    assert(first =~= seq![module_usage()]);
    match keys {
        Ok(k) => {
            if k.len() > 0 {
                lines.push("Available modules:".to_owned());
                assert(string_views(lines@) =~= first + seq!["Available modules:"@]);
                push_bullets(&mut lines, k);
                assert(string_views(lines@) =~= first + (seq!["Available modules:"@] + bullets(
                    string_views(k@),
                )));
            } else {
                assert(string_views(lines@) =~= first + Seq::<Seq<char>>::empty());
            }
        },
        Err(e) => {
            lines.push(concat_str("Failed to list modules: ", e.as_str()));
            assert(string_views(lines@) =~= first + seq!["Failed to list modules: "@ + e@]);
        },
    }
    lines
}

/// The line that answers any other `module ...` command.
pub fn module_usage_line() -> (line: String)
    ensures
        line@ == module_usage(),
{
    "Usage: module <name> enable [-requirements]|disable".to_owned()
}

} // verus!
