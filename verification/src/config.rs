//! The `commandline` and `modules` configuration providers: keys, reads,
//! writes and resets, and the planning of `configuration ...` commands.

use vstd::prelude::*;
use crate::text::{
    chars_eq_str, chars_of, concat_str, contains_char, lower, split_once, split_once_spec, string_of,
    to_ascii_lower,
};
use crate::commands::string_views;

verus! {

/// The settings of the interactive command line.
pub struct CommandlineConfig {
    pub input_symbol: String,
    pub output_symbol: String,
    pub input_color: String,
    pub output_color: String,
    pub clear_on_start: bool,
}

/// The abstract content of a [`CommandlineConfig`].
pub struct CommandlineConfigView {
    pub input_symbol: Seq<char>,
    pub output_symbol: Seq<char>,
    pub input_color: Seq<char>,
    pub output_color: Seq<char>,
    pub clear_on_start: bool,
}

impl View for CommandlineConfig {
    type V = CommandlineConfigView;

    open spec fn view(&self) -> CommandlineConfigView {
        CommandlineConfigView {
            input_symbol: self.input_symbol@,
            output_symbol: self.output_symbol@,
            input_color: self.input_color@,
            output_color: self.output_color@,
            clear_on_start: self.clear_on_start,
        }
    }
}

/// The text of a boolean (what `bool::to_string` gives).
pub open spec fn bool_text(b: bool) -> Seq<char> {
    if b {
        "true"@
    } else {
        "false"@
    }
}

/// The text of a boolean: `"true"` or `"false"`.
pub fn bool_string(b: bool) -> (s: String)
    ensures
        s@ == bool_text(b),
{
    if b {
        "true".to_owned()
    } else {
        "false".to_owned()
    }
}

/// The keys of the `commandline` configuration, in the order they are listed.
pub open spec fn commandline_key_list() -> Seq<Seq<char>> {
    seq!["input_symbol"@, "output_symbol"@, "input_color"@, "output_color"@, "clear_on_start"@]
}

/// The keys of the `commandline` configuration.
pub fn commandline_keys() -> (r: Result<Vec<String>, String>)
    ensures
        r is Ok,
        crate::commands::string_views(r->Ok_0@) == commandline_key_list(),
{
    let mut keys: Vec<String> = Vec::new();
    keys.push("input_symbol".to_owned());
    keys.push("output_symbol".to_owned());
    keys.push("input_color".to_owned());
    keys.push("output_color".to_owned());
    keys.push("clear_on_start".to_owned());
    assert(crate::commands::string_views(keys@) =~= commandline_key_list());
    Ok(keys)
}

/// The value of `key` in `c`, as text; `None` for a key the configuration does not have.
pub open spec fn commandline_get_spec(c: CommandlineConfigView, key: Seq<char>) -> Option<Seq<char>> {
    if key == "input_symbol"@ {
        Some(c.input_symbol)
    } else if key == "output_symbol"@ {
        Some(c.output_symbol)
    } else if key == "input_color"@ {
        Some(c.input_color)
    } else if key == "output_color"@ {
        Some(c.output_color)
    } else if key == "clear_on_start"@ {
        Some(bool_text(c.clear_on_start))
    } else {
        None
    }
}

/// The configuration after setting `key` to `value`, or the error message.
/// `clear_on_start` takes `true` or `false` in any ASCII case; the other keys
/// take the value as written.
pub open spec fn commandline_set_spec(
    c: CommandlineConfigView,
    key: Seq<char>,
    value: Seq<char>,
) -> Result<CommandlineConfigView, Seq<char>> {
    if key == "input_symbol"@ {
        Ok(CommandlineConfigView { input_symbol: value, ..c })
    } else if key == "output_symbol"@ {
        Ok(CommandlineConfigView { output_symbol: value, ..c })
    } else if key == "input_color"@ {
        Ok(CommandlineConfigView { input_color: value, ..c })
    } else if key == "output_color"@ {
        Ok(CommandlineConfigView { output_color: value, ..c })
    } else if key == "clear_on_start"@ {
        if lower(value) == "true"@ {
            Ok(CommandlineConfigView { clear_on_start: true, ..c })
        } else if lower(value) == "false"@ {
            Ok(CommandlineConfigView { clear_on_start: false, ..c })
        } else {
            Err("clear_on_start must be true or false"@)
        }
    } else {
        Err("Unknown config key"@)
    }
}

/// The configuration after resetting `target` (every key when `None`) to its
/// value in `d`, or the error message for an unknown key.
pub open spec fn commandline_reset_spec(
    c: CommandlineConfigView,
    target: Option<Seq<char>>,
    d: CommandlineConfigView,
) -> Result<CommandlineConfigView, Seq<char>> {
    match target {
        None => Ok(d),
        Some(key) => if key == "input_symbol"@ {
            Ok(CommandlineConfigView { input_symbol: d.input_symbol, ..c })
        } else if key == "output_symbol"@ {
            Ok(CommandlineConfigView { output_symbol: d.output_symbol, ..c })
        } else if key == "input_color"@ {
            Ok(CommandlineConfigView { input_color: d.input_color, ..c })
        } else if key == "output_color"@ {
            Ok(CommandlineConfigView { output_color: d.output_color, ..c })
        } else if key == "clear_on_start"@ {
            Ok(CommandlineConfigView { clear_on_start: d.clear_on_start, ..c })
        } else {
            Err("Unknown config key"@)
        },
    }
}

/// The value of `key` in `cfg` as text, if the configuration has that key.
pub fn commandline_get_value(cfg: &CommandlineConfig, key: &str) -> (r: Option<String>)
    ensures
        match commandline_get_spec(cfg@, key@) {
            Some(v) => r is Some && r->0@ == v,
            None => r is None,
        },
{
    let k = chars_of(key);
    if chars_eq_str(&k, "input_symbol") {
        Some(cfg.input_symbol.clone())
    } else if chars_eq_str(&k, "output_symbol") {
        Some(cfg.output_symbol.clone())
    } else if chars_eq_str(&k, "input_color") {
        Some(cfg.input_color.clone())
    } else if chars_eq_str(&k, "output_color") {
        Some(cfg.output_color.clone())
    } else if chars_eq_str(&k, "clear_on_start") {
        Some(bool_string(cfg.clear_on_start))
    } else {
        None
    }
}

/// The value of `key` in `cfg` as text, or `Unknown config key`.
pub fn commandline_get(cfg: &CommandlineConfig, key: &str) -> (r: Result<String, String>)
    ensures
        match commandline_get_spec(cfg@, key@) {
            Some(v) => r is Ok && r->Ok_0@ == v,
            None => r is Err && r->Err_0@ == "Unknown config key"@,
        },
{
    match commandline_get_value(cfg, key) {
        Some(v) => Ok(v),
        None => Err("Unknown config key".to_owned()),
    }
}

/// Sets `key` to `value` in `cfg`. On an error `cfg` is left as it was; on
/// success the caller persists the new configuration.
pub fn commandline_set(cfg: &mut CommandlineConfig, key: &str, value: &str) -> (r: Result<(), String>)
    ensures
        match commandline_set_spec(old(cfg)@, key@, value@) {
            Ok(n) => r is Ok && final(cfg)@ == n,
            Err(e) => r is Err && r->Err_0@ == e && final(cfg)@ == old(cfg)@,
        },
{
    let k = chars_of(key);
    if chars_eq_str(&k, "input_symbol") {
        cfg.input_symbol = value.to_owned();
        Ok(())
    } else if chars_eq_str(&k, "output_symbol") {
        cfg.output_symbol = value.to_owned();
        Ok(())
    } else if chars_eq_str(&k, "input_color") {
        cfg.input_color = value.to_owned();
        Ok(())
    } else if chars_eq_str(&k, "output_color") {
        cfg.output_color = value.to_owned();
        Ok(())
    } else if chars_eq_str(&k, "clear_on_start") {
        let v = to_ascii_lower(&chars_of(value));
        if chars_eq_str(&v, "true") {
            cfg.clear_on_start = true;
            Ok(())
        } else if chars_eq_str(&v, "false") {
            cfg.clear_on_start = false;
            Ok(())
        } else {
            Err("clear_on_start must be true or false".to_owned())
        }
    } else {
        Err("Unknown config key".to_owned())
    }
}

fn clone_config(c: &CommandlineConfig) -> (r: CommandlineConfig)
    ensures
        r@ == c@,
{
    CommandlineConfig {
        input_symbol: c.input_symbol.clone(),
        output_symbol: c.output_symbol.clone(),
        input_color: c.input_color.clone(),
        output_color: c.output_color.clone(),
        clear_on_start: c.clear_on_start,
    }
}

/// Resets `target` (every key when `None`) to its value in `defaults`. On an
/// error `cfg` is left as it was; on success the caller persists it.
pub fn commandline_reset(
    cfg: &mut CommandlineConfig,
    target: Option<&str>,
    defaults: &CommandlineConfig,
) -> (r: Result<(), String>)
    ensures
        match commandline_reset_spec(
            old(cfg)@,
            match target {
                Some(t) => Some(t@),
                None => None,
            },
            defaults@,
        ) {
            Ok(n) => r is Ok && final(cfg)@ == n,
            Err(e) => r is Err && r->Err_0@ == e && final(cfg)@ == old(cfg)@,
        },
{
    match target {
        None => {
            *cfg = clone_config(defaults);
            Ok(())
        },
        Some(key) => {
            let k = chars_of(key);
            if chars_eq_str(&k, "input_symbol") {
                cfg.input_symbol = defaults.input_symbol.clone();
                Ok(())
            } else if chars_eq_str(&k, "output_symbol") {
                cfg.output_symbol = defaults.output_symbol.clone();
                Ok(())
            } else if chars_eq_str(&k, "input_color") {
                cfg.input_color = defaults.input_color.clone();
                Ok(())
            } else if chars_eq_str(&k, "output_color") {
                cfg.output_color = defaults.output_color.clone();
                Ok(())
            } else if chars_eq_str(&k, "clear_on_start") {
                cfg.clear_on_start = defaults.clear_on_start;
                Ok(())
            } else {
                Err("Unknown config key".to_owned())
            }
        },
    }
}


proof fn lemma_keys_distinct()
    ensures
        "input_symbol"@ != "output_symbol"@,
        "input_symbol"@ != "input_color"@,
        "input_symbol"@ != "output_color"@,
        "input_symbol"@ != "clear_on_start"@,
        "output_symbol"@ != "input_color"@,
        "output_symbol"@ != "output_color"@,
        "output_symbol"@ != "clear_on_start"@,
        "input_color"@ != "output_color"@,
        "input_color"@ != "clear_on_start"@,
        "output_color"@ != "clear_on_start"@,
{
    reveal_strlit("input_symbol");
    reveal_strlit("output_symbol");
    reveal_strlit("input_color");
    reveal_strlit("output_color");
    reveal_strlit("clear_on_start");
    assert("input_symbol"@[0] != "output_symbol"@[0]);
    assert("input_symbol"@[6] != "input_color"@[6]);
    assert("input_symbol"@[0] != "output_color"@[0]);
    assert("input_symbol"@[0] != "clear_on_start"@[0]);
    assert("output_symbol"@[0] != "input_color"@[0]);
    assert("output_symbol"@[7] != "output_color"@[7]);
    assert("output_symbol"@[0] != "clear_on_start"@[0]);
    assert("input_color"@[0] != "output_color"@[0]);
    assert("input_color"@[0] != "clear_on_start"@[0]);
    assert("output_color"@[0] != "clear_on_start"@[0]);
}

/// Reading a key right after a successful write gives the written value
/// (for `clear_on_start`, its ASCII lower-case form), and every other key
/// keeps the value it had.
pub proof fn law_get_after_set(
    c: CommandlineConfigView,
    key: Seq<char>,
    value: Seq<char>,
    other: Seq<char>,
)
    requires
        commandline_set_spec(c, key, value) is Ok,
    ensures
        commandline_get_spec(commandline_set_spec(c, key, value)->Ok_0, key) == Some(
            if key == "clear_on_start"@ {
                lower(value)
            } else {
                value
            },
        ),
        other != key ==> commandline_get_spec(commandline_set_spec(c, key, value)->Ok_0, other)
            == commandline_get_spec(c, other),
{
    lemma_keys_distinct();
}

/// A write is refused exactly for a key the configuration does not have, or
/// for a `clear_on_start` value other than `true`/`false` in any ASCII case.
pub proof fn law_set_refused_when(c: CommandlineConfigView, key: Seq<char>, value: Seq<char>)
    ensures
        commandline_set_spec(c, key, value) is Err <==> (commandline_get_spec(c, key) is None || (
        key == "clear_on_start"@ && lower(value) != "true"@ && lower(value) != "false"@)),
{
    lemma_keys_distinct();
}

/// Resetting one key gives it its default value and leaves the other keys
/// alone; resetting everything gives the defaults; only an unknown key is refused.
pub proof fn law_reset_restores_default(
    c: CommandlineConfigView,
    key: Seq<char>,
    d: CommandlineConfigView,
    other: Seq<char>,
)
    ensures
        commandline_reset_spec(c, None, d) == Ok::<CommandlineConfigView, Seq<char>>(d),
        commandline_reset_spec(c, Some(key), d) is Err <==> commandline_get_spec(c, key) is None,
        commandline_reset_spec(c, Some(key), d) is Ok ==> commandline_get_spec(
            commandline_reset_spec(c, Some(key), d)->Ok_0,
            key,
        ) == commandline_get_spec(d, key),
        commandline_reset_spec(c, Some(key), d) is Ok && other != key ==> commandline_get_spec(
            commandline_reset_spec(c, Some(key), d)->Ok_0,
            other,
        ) == commandline_get_spec(c, other),
{
    lemma_keys_distinct();
}


/// Which configuration a provider reads and writes.
#[derive(Clone, Copy, PartialEq, Eq, Structural)]
pub enum ConfigProviderKind {
    Commandline,
    Modules,
}

/// A named configuration provider.
#[derive(Clone, Copy)]
pub struct ConfigProviderSpec {
    pub name: &'static str,
    pub kind: ConfigProviderKind,
}

/// The provider named `name`, if any.
pub open spec fn provider_of(name: Seq<char>) -> Option<ConfigProviderKind> {
    if name == "commandline"@ {
        Some(ConfigProviderKind::Commandline)
    } else if name == "modules"@ {
        Some(ConfigProviderKind::Modules)
    } else {
        None
    }
}

/// The name of a provider, as it is written in commands and above its keys.
pub open spec fn provider_name(kind: ConfigProviderKind) -> Seq<char> {
    match kind {
        ConfigProviderKind::Commandline => "commandline"@,
        ConfigProviderKind::Modules => "modules"@,
    }
}

/// The names of the configuration providers, in the order they are listed.
pub open spec fn provider_name_list() -> Seq<Seq<char>> {
    seq!["commandline"@, "modules"@]
}

/// The names of the configuration providers: `commandline`, `modules`.
pub fn provider_names() -> (names: Vec<String>)
    ensures
        string_views(names@) == provider_name_list(),
{
    let mut names: Vec<String> = Vec::new();
    names.push("commandline".to_owned());
    names.push("modules".to_owned());
    assert(string_views(names@) =~= provider_name_list());
    names
}

/// The provider named `name`, if any.
pub fn resolve_provider(name: &str) -> (r: Option<ConfigProviderSpec>)
    ensures
        match provider_of(name@) {
            Some(kind) => r is Some && r->0.kind == kind && r->0.name@ == name@ && r->0.name@
                == provider_name(kind),
            None => r is None,
        },
{
    let n = chars_of(name);
    if chars_eq_str(&n, "commandline") {
        Some(ConfigProviderSpec { name: "commandline", kind: ConfigProviderKind::Commandline })
    } else if chars_eq_str(&n, "modules") {
        Some(ConfigProviderSpec { name: "modules", kind: ConfigProviderKind::Modules })
    } else {
        None
    }
}

/// Each key of `keys` written as `<provider>.<key>`.
pub open spec fn scoped(provider: Seq<char>, keys: Seq<Seq<char>>) -> Seq<Seq<char>> {
    keys.map_values(|k: Seq<char>| provider + "."@ + k)
}

/// The scoped keys `<config>.<key>` of every provider whose keys could be
/// listed: the `commandline` keys, then the module keys when they were read.
pub open spec fn scoped_key_spec(module_keys: Result<Seq<Seq<char>>, Seq<char>>) -> Seq<Seq<char>> {
    scoped("commandline"@, commandline_key_list()) + match module_keys {
        Ok(keys) => scoped("modules"@, keys),
        Err(_) => Seq::empty(),
    }
}

fn push_scoped(out: &mut Vec<String>, provider: &str, keys: &Vec<String>)
    ensures
        string_views(final(out)@) == string_views(old(out)@) + scoped(provider@, string_views(keys@)),
{
    let ghost start = string_views(out@);
    let mut i: usize = 0;
    while i < keys.len()
        invariant
            i <= keys.len(),
            string_views(out@) == start + scoped(provider@, string_views(keys@).take(i as int)),
        decreases keys.len() - i,
    {
        let prefix = concat_str(provider, ".");
        let item = concat_str(prefix.as_str(), keys[i].as_str());
        let ghost before = string_views(out@);
        out.push(item);
        i = i + 1;
        assert(string_views(out@) =~= before.push(item@));
        assert(scoped(provider@, string_views(keys@).take(i as int)) =~= scoped(
            provider@,
            string_views(keys@).take(i - 1),
        ).push(provider@ + "."@ + keys@[i - 1]@));
    }
    assert(string_views(keys@).take(keys.len() as int) =~= string_views(keys@));
}

/// The scoped keys `<config>.<key>` offered for completion; `module_keys` is
/// the result of listing the module keys.
pub fn scoped_key_candidates(module_keys: &Result<Vec<String>, String>) -> (r: Vec<String>)
    ensures
        string_views(r@) == scoped_key_spec(
            match module_keys {
                Ok(k) => Ok(string_views(k@)),
                Err(e) => Err(e@),
            },
        ),
{
    let mut out: Vec<String> = Vec::new();
    assert(string_views(out@) =~= Seq::<Seq<char>>::empty());
    let keys = commandline_keys();
    match keys {
        Ok(k) => push_scoped(&mut out, "commandline", &k),
        Err(_) => {},
    }
    match module_keys {
        Ok(k) => push_scoped(&mut out, "modules", k),
        Err(_) => {},
    }
    proof {
        let ms = match module_keys {
            Ok(k) => Ok(string_views(k@)),
            Err(e) => Err(e@),
        };
        match module_keys {
            Ok(k) => {},
            Err(_) => {
                assert(string_views(out@) =~= scoped_key_spec(ms));
            },
        }
    }
    out
}


/// Which modules are enabled, as the modules configuration lists them.
pub struct ModulesConfig {
    pub modules: Vec<(String, bool)>,
}

/// The entries of a modules configuration.
pub open spec fn module_entries(cfg: &ModulesConfig) -> Seq<(Seq<char>, bool)> {
    cfg.modules@.map_values(|e: (String, bool)| (e.0@, e.1))
}

/// No module name occurs twice among `entries`.
pub open spec fn distinct_names(entries: Seq<(Seq<char>, bool)>) -> bool {
    forall|i: int, j: int|
        0 <= i < j < entries.len() ==> #[trigger] entries[i].0 != #[trigger] entries[j].0
}

/// A modules configuration is well formed when, as in the map of module
/// names it stands for, no name occurs twice.
pub open spec fn modules_wf(cfg: &ModulesConfig) -> bool {
    distinct_names(module_entries(cfg))
}

/// The state of the first entry named `key`, if any.
pub open spec fn module_lookup(entries: Seq<(Seq<char>, bool)>, key: Seq<char>) -> Option<bool>
    decreases entries.len(),
{
    if entries.len() == 0 {
        None
    } else if entries[0].0 == key {
        Some(entries[0].1)
    } else {
        module_lookup(entries.drop_first(), key)
    }
}

/// In a configuration where no name occurs twice, looking up a listed
/// module gives the state listed beside it.
pub proof fn law_lookup_gives_listed_state(entries: Seq<(Seq<char>, bool)>, i: int)
    requires
        distinct_names(entries),
        0 <= i < entries.len(),
    ensures
        module_lookup(entries, entries[i].0) == Some(entries[i].1),
    decreases i,
{
    if i > 0 {
        let t = entries.drop_first();
        assert forall|a: int, b: int| 0 <= a < b < t.len() implies #[trigger] t[a].0 != #[trigger] t[b].0 by {
            assert(t[a] == entries[a + 1]);
            assert(t[b] == entries[b + 1]);
        }
        assert(t[i - 1] == entries[i]);
        assert(entries[0].0 != entries[i].0);
        law_lookup_gives_listed_state(t, i - 1);
    }
}

fn lookup_module(cfg: &ModulesConfig, key: &str) -> (r: Option<bool>)
    ensures
        r == module_lookup(module_entries(cfg), key@),
{
    let k = chars_of(key);
    let mut i: usize = 0;
    assert(module_entries(cfg).skip(0) =~= module_entries(cfg));
    while i < cfg.modules.len()
        invariant
            i <= cfg.modules@.len(),
            k@ == key@,
            module_lookup(module_entries(cfg), key@) == module_lookup(
                module_entries(cfg).skip(i as int),
                key@,
            ),
        decreases cfg.modules.len() - i,
    {
        let name = chars_of(cfg.modules[i].0.as_str());
        let ghost tail = module_entries(cfg).skip(i as int);
        assert(tail[0] == (cfg.modules@[i as int].0@, cfg.modules@[i as int].1));
        assert(tail.drop_first() =~= module_entries(cfg).skip(i + 1));
        if crate::text::chars_eq(&name, &k) {
            return Some(cfg.modules[i].1);
        }
        i = i + 1;
    }
    assert(module_entries(cfg).skip(i as int).len() == 0);
    None
}

/// The names listed by a modules configuration, in order.
pub fn modules_keys(cfg: &ModulesConfig) -> (keys: Vec<String>)
    requires
        modules_wf(cfg),
    ensures
        string_views(keys@) == module_entries(cfg).map_values(|e: (Seq<char>, bool)| e.0),
{
    let mut keys: Vec<String> = Vec::new();
    let mut i: usize = 0;
    while i < cfg.modules.len()
        invariant
            i <= cfg.modules@.len(),
            string_views(keys@) == module_entries(cfg).take(i as int).map_values(
                |e: (Seq<char>, bool)| e.0,
            ),
        decreases cfg.modules.len() - i,
    {
        let ghost before = string_views(keys@);
        let name = cfg.modules[i].0.clone();
        assert(module_entries(cfg)[i as int].0 == name@);
        keys.push(name);
        assert(string_views(keys@) =~= before.push(name@));
        assert(module_entries(cfg).take(i + 1).map_values(|e: (Seq<char>, bool)| e.0) =~= module_entries(
            cfg,
        ).take(i as int).map_values(|e: (Seq<char>, bool)| e.0).push(name@));
        i = i + 1;
        assert(string_views(keys@) =~= module_entries(cfg).take(i as int).map_values(
            |e: (Seq<char>, bool)| e.0,
        ));
    }
    assert(module_entries(cfg).take(i as int) =~= module_entries(cfg));
    keys
}

/// The state of module `key` as text, or `Unknown module key`.
pub fn modules_get(cfg: &ModulesConfig, key: &str) -> (r: Result<String, String>)
    requires
        modules_wf(cfg),
    ensures
        match module_lookup(module_entries(cfg), key@) {
            Some(b) => r is Ok && r->Ok_0@ == bool_text(b),
            None => r is Err && r->Err_0@ == "Unknown module key"@,
        },
{
    match lookup_module(cfg, key) {
        Some(b) => Ok(bool_string(b)),
        None => Err("Unknown module key".to_owned()),
    }
}

/// A module state written as `true` or `false` in any ASCII case.
pub open spec fn module_value_spec(value: Seq<char>) -> Result<bool, Seq<char>> {
    if lower(value) == "true"@ {
        Ok(true)
    } else if lower(value) == "false"@ {
        Ok(false)
    } else {
        Err("Module value must be true or false"@)
    }
}

/// Reads the new state of a module from `value` (`true` or `false`, any ASCII case).
pub fn parse_module_value(value: &str) -> (r: Result<bool, String>)
    ensures
        match module_value_spec(value@) {
            Ok(b) => r == Ok::<bool, String>(b),
            Err(e) => r is Err && r->Err_0@ == e,
        },
{
    let v = to_ascii_lower(&chars_of(value));
    if chars_eq_str(&v, "true") {
        Ok(true)
    } else if chars_eq_str(&v, "false") {
        Ok(false)
    } else {
        Err("Module value must be true or false".to_owned())
    }
}

/// The state that resetting module `key` restores: its state in `defaults`,
/// or `Unknown module key` when the defaults do not list it.
pub fn modules_reset_value(defaults: &ModulesConfig, key: &str) -> (r: Result<bool, String>)
    requires
        modules_wf(defaults),
    ensures
        match module_lookup(module_entries(defaults), key@) {
            Some(b) => r == Ok::<bool, String>(b),
            None => r is Err && r->Err_0@ == "Unknown module key"@,
        },
{
    match lookup_module(defaults, key) {
        Some(b) => Ok(b),
        None => Err("Unknown module key".to_owned()),
    }
}

/// What a `configuration ...` command asks for.
pub enum ConfigRequest {
    /// Nothing to read or write: print these lines.
    Respond(Vec<String>),
    /// Print the keys of this provider.
    ListKeys(ConfigProviderSpec),
    /// Read `key`; a value is printed as `<label> = <value>`.
    Read { provider: ConfigProviderSpec, key: String, label: String },
    /// Write `value` to `key`.
    Write { provider: ConfigProviderSpec, key: String, value: String },
    /// Reset `key`, or every key when `None`.
    Reset { provider: ConfigProviderSpec, target: Option<String> },
    /// Open this provider's file in the default editor.
    Open(ConfigProviderSpec),
}

/// The abstract content of a [`ConfigRequest`].
pub enum ConfigPlan {
    Respond(Seq<Seq<char>>),
    ListKeys(ConfigProviderKind),
    Read(ConfigProviderKind, Seq<char>, Seq<char>),
    Write(ConfigProviderKind, Seq<char>, Seq<char>),
    Reset(ConfigProviderKind, Option<Seq<char>>),
    Open(ConfigProviderKind),
}

impl View for ConfigRequest {
    type V = ConfigPlan;

    open spec fn view(&self) -> ConfigPlan {
        match self {
            ConfigRequest::Respond(lines) => ConfigPlan::Respond(string_views(lines@)),
            ConfigRequest::ListKeys(p) => ConfigPlan::ListKeys(p.kind),
            ConfigRequest::Read { provider, key, label } => ConfigPlan::Read(provider.kind, key@, label@),
            ConfigRequest::Write { provider, key, value } => ConfigPlan::Write(provider.kind, key@, value@),
            ConfigRequest::Reset { provider, target } => ConfigPlan::Reset(
                provider.kind,
                match target {
                    Some(k) => Some(k@),
                    None => None,
                },
            ),
            ConfigRequest::Open(p) => ConfigPlan::Open(p.kind),
        }
    }
}

impl ConfigRequest {
    /// Whether every provider in the request carries the name of its own
    /// kind (the name printed above its keys).
    pub open spec fn names_its_provider(&self) -> bool {
        match self {
            ConfigRequest::Respond(_) => true,
            ConfigRequest::ListKeys(p) => p.name@ == provider_name(p.kind),
            ConfigRequest::Read { provider, .. } => provider.name@ == provider_name(provider.kind),
            ConfigRequest::Write { provider, .. } => provider.name@ == provider_name(provider.kind),
            ConfigRequest::Reset { provider, .. } => provider.name@ == provider_name(provider.kind),
            ConfigRequest::Open(p) => p.name@ == provider_name(p.kind),
        }
    }
}

/// The lines that list the configuration providers.
pub open spec fn available_configs_lines() -> Seq<Seq<char>> {
    seq!["Available configs:"@, "- commandline"@, "- modules"@]
}

/// The usage text of the `configuration` command.
pub open spec fn configuration_usage_lines() -> Seq<Seq<char>> {
    seq![
        "Usage: configuration <name> | configuration [show|get <key>|get <config>.<key>|set <key> <value>|set <config>.<key> <value>|reset|reset <config>|reset <config>.<key>]"@,
        "Keys: input_symbol, output_symbol, input_color, output_color, clear_on_start"@,
    ]
}

/// The message for a reference without the `<config>.<key>` shape.
pub open spec fn scoped_format_message() -> Seq<char> {
    "Use scoped format: <config>.<key> (example: commandline.clear_on_start)"@
}

/// The plan for a provider named `name`, or `Unknown config`.
pub open spec fn with_provider(name: Seq<char>, plan: spec_fn(ConfigProviderKind) -> ConfigPlan) -> ConfigPlan {
    match provider_of(name) {
        Some(kind) => plan(kind),
        None => ConfigPlan::Respond(seq!["Unknown config"@]),
    }
}

/// `configuration get <config>.<key>`.
pub open spec fn get_scoped_plan(reference: Seq<char>) -> ConfigPlan {
    match split_once_spec(reference, '.') {
        None => ConfigPlan::Respond(seq![scoped_format_message()]),
        Some((name, key)) => with_provider(name, |k: ConfigProviderKind| ConfigPlan::Read(k, key, reference)),
    }
}

/// `configuration set <config>.<key> <value>`.
pub open spec fn set_scoped_plan(reference: Seq<char>, value: Seq<char>) -> ConfigPlan {
    match split_once_spec(reference, '.') {
        None => ConfigPlan::Respond(seq![scoped_format_message()]),
        Some((name, key)) => with_provider(name, |k: ConfigProviderKind| ConfigPlan::Write(k, key, value)),
    }
}

/// `configuration reset <config>` or `configuration reset <config>.<key>`.
pub open spec fn reset_scoped_plan(reference: Seq<char>) -> ConfigPlan {
    match split_once_spec(reference, '.') {
        None => with_provider(reference, |k: ConfigProviderKind| ConfigPlan::Reset(k, None)),
        Some((name, key)) => with_provider(name, |k: ConfigProviderKind| ConfigPlan::Reset(k, Some(key))),
    }
}

/// What the words `p` of a `configuration ...` command ask for.
pub open spec fn configuration_plan(p: Seq<Seq<char>>) -> ConfigPlan {
    if p.len() == 0 || p[0] != "configuration"@ {
        ConfigPlan::Respond(configuration_usage_lines())
    } else if p.len() == 1 {
        ConfigPlan::Respond(available_configs_lines())
    } else if p.len() == 2 && p[1] == "show"@ {
        ConfigPlan::Respond(available_configs_lines())
    } else if p.len() == 3 && p[1] == "show"@ {
        with_provider(p[2], |k: ConfigProviderKind| ConfigPlan::ListKeys(k))
    } else if p.len() == 3 && p[1] == "get"@ {
        if p[2].contains('.') {
            get_scoped_plan(p[2])
        } else {
            ConfigPlan::Read(ConfigProviderKind::Commandline, p[2], p[2])
        }
    } else if p.len() == 4 && p[1] == "set"@ {
        if p[2].contains('.') {
            set_scoped_plan(p[2], p[3])
        } else {
            ConfigPlan::Write(ConfigProviderKind::Commandline, p[2], p[3])
        }
    } else if p.len() == 3 && p[1] == "reset"@ {
        reset_scoped_plan(p[2])
    } else if p.len() == 2 && p[1] == "reset"@ {
        ConfigPlan::Reset(ConfigProviderKind::Commandline, None)
    } else if p.len() == 2 {
        with_provider(p[1], |k: ConfigProviderKind| ConfigPlan::Open(k))
    } else {
        ConfigPlan::Respond(configuration_usage_lines())
    }
}

fn respond_lines1(a: &str) -> (r: ConfigRequest)
    ensures
        r@ == ConfigPlan::Respond(seq![a@]),
{
    let mut v: Vec<String> = Vec::new();
    v.push(a.to_owned());
    assert(string_views(v@) =~= seq![a@]);
    ConfigRequest::Respond(v)
}

fn available_configs() -> (r: ConfigRequest)
    ensures
        r@ == ConfigPlan::Respond(available_configs_lines()),
{
    let mut v: Vec<String> = Vec::new();
    v.push("Available configs:".to_owned());
    v.push("- commandline".to_owned());
    v.push("- modules".to_owned());
    assert(string_views(v@) =~= available_configs_lines());
    ConfigRequest::Respond(v)
}

fn configuration_usage() -> (r: ConfigRequest)
    ensures
        r@ == ConfigPlan::Respond(configuration_usage_lines()),
{
    let mut v: Vec<String> = Vec::new();
    v.push(
        "Usage: configuration <name> | configuration [show|get <key>|get <config>.<key>|set <key> <value>|set <config>.<key> <value>|reset|reset <config>|reset <config>.<key>]".to_owned(),
    );
    v.push("Keys: input_symbol, output_symbol, input_color, output_color, clear_on_start".to_owned());
    assert(string_views(v@) =~= configuration_usage_lines());
    ConfigRequest::Respond(v)
}

fn unknown_config() -> (r: ConfigRequest)
    ensures
        r@ == ConfigPlan::Respond(seq!["Unknown config"@]),
{
    respond_lines1("Unknown config")
}

fn get_scoped(reference: &Vec<char>) -> (r: ConfigRequest)
    ensures
        r@ == get_scoped_plan(reference@),
        r.names_its_provider(),
{
    match split_once(reference, '.') {
        None => respond_lines1("Use scoped format: <config>.<key> (example: commandline.clear_on_start)"),
        Some((name, key)) => {
            let name_s = string_of(&name);
            match resolve_provider(name_s.as_str()) {
                Some(p) => ConfigRequest::Read { provider: p, key: string_of(&key), label: string_of(reference) },
                None => unknown_config(),
            }
        },
    }
}

fn set_scoped(reference: &Vec<char>, value: &Vec<char>) -> (r: ConfigRequest)
    ensures
        r@ == set_scoped_plan(reference@, value@),
        r.names_its_provider(),
{
    match split_once(reference, '.') {
        None => respond_lines1("Use scoped format: <config>.<key> (example: commandline.clear_on_start)"),
        Some((name, key)) => {
            let name_s = string_of(&name);
            match resolve_provider(name_s.as_str()) {
                Some(p) => ConfigRequest::Write { provider: p, key: string_of(&key), value: string_of(value) },
                None => unknown_config(),
            }
        },
    }
}

fn reset_scoped(reference: &Vec<char>) -> (r: ConfigRequest)
    ensures
        r@ == reset_scoped_plan(reference@),
        r.names_its_provider(),
{
    match split_once(reference, '.') {
        None => {
            let name_s = string_of(reference);
            match resolve_provider(name_s.as_str()) {
                Some(p) => ConfigRequest::Reset { provider: p, target: None },
                None => unknown_config(),
            }
        },
        Some((name, key)) => {
            let name_s = string_of(&name);
            match resolve_provider(name_s.as_str()) {
                Some(p) => ConfigRequest::Reset { provider: p, target: Some(string_of(&key)) },
                None => unknown_config(),
            }
        },
    }
}

/// The character sequences of a list of string slices.
pub open spec fn slice_views(v: Seq<&str>) -> Seq<Seq<char>> {
    v.map_values(|x: &str| x@)
}

/// Decides what the words of a `configuration ...` command ask for:
/// listing providers or keys, reading, writing or resetting a key (plain keys
/// belong to `commandline`, `<config>.<key>` names the provider), opening a
/// provider's file, or printing the usage.
pub fn handle_configuration(parts: &[&str]) -> (r: ConfigRequest)
    ensures
        r@ == configuration_plan(slice_views(parts@)),
        r.names_its_provider(),
{
    let ghost p = slice_views(parts@);
    let n = parts.len();
    if n == 0 {
        return configuration_usage();
    }
    let w0 = chars_of(parts[0]);
    assert(w0@ == p[0]);
    if !chars_eq_str(&w0, "configuration") {
        return configuration_usage();
    }
    if n == 1 {
        return available_configs();
    }
    let w1 = chars_of(parts[1]);
    assert(w1@ == p[1]);
    let is_show = chars_eq_str(&w1, "show");
    let is_get = chars_eq_str(&w1, "get");
    let is_set = chars_eq_str(&w1, "set");
    let is_reset = chars_eq_str(&w1, "reset");
    if n == 2 && is_show {
        return available_configs();
    }
    if n == 3 {
        let w2 = chars_of(parts[2]);
        assert(w2@ == p[2]);
        if is_show {
            return match resolve_provider(parts[2]) {
                Some(pr) => ConfigRequest::ListKeys(pr),
                None => unknown_config(),
            };
        }
        if is_get {
            if contains_char(&w2, '.') {
                return get_scoped(&w2);
            }
            return ConfigRequest::Read {
                provider: ConfigProviderSpec { name: "commandline", kind: ConfigProviderKind::Commandline },
                key: parts[2].to_owned(),
                label: parts[2].to_owned(),
            };
        }
    }
    if n == 4 && is_set {
        let w2 = chars_of(parts[2]);
        let w3 = chars_of(parts[3]);
        assert(w2@ == p[2]);
        assert(w3@ == p[3]);
        if contains_char(&w2, '.') {
            return set_scoped(&w2, &w3);
        }
        return ConfigRequest::Write {
            provider: ConfigProviderSpec { name: "commandline", kind: ConfigProviderKind::Commandline },
            key: parts[2].to_owned(),
            value: parts[3].to_owned(),
        };
    }
    if n == 3 && is_reset {
        let w2 = chars_of(parts[2]);
        assert(w2@ == p[2]);
        return reset_scoped(&w2);
    }
    if n == 2 && is_reset {
        return ConfigRequest::Reset {
            provider: ConfigProviderSpec { name: "commandline", kind: ConfigProviderKind::Commandline },
            target: None,
        };
    }
    if n == 2 {
        return match resolve_provider(parts[1]) {
            Some(pr) => ConfigRequest::Open(pr),
            None => unknown_config(),
        };
    }
    configuration_usage()
}


/// Each item of `items` with `- ` in front.
pub open spec fn bullets(items: Seq<Seq<char>>) -> Seq<Seq<char>> {
    items.map_values(|k: Seq<char>| "- "@ + k)
}

/// Appends `- <item>` for each item to `out`.
pub fn push_bullets(out: &mut Vec<String>, items: &Vec<String>)
    ensures
        string_views(final(out)@) == string_views(old(out)@) + bullets(string_views(items@)),
{
    let ghost start = string_views(out@);
    let mut i: usize = 0;
    while i < items.len()
        invariant
            i <= items.len(),
            string_views(out@) == start + bullets(string_views(items@).take(i as int)),
        decreases items.len() - i,
    {
        let line = concat_str("- ", items[i].as_str());
        let ghost before = string_views(out@);
        out.push(line);
        i = i + 1;
        assert(string_views(out@) =~= before.push(line@));
        assert(bullets(string_views(items@).take(i as int)) =~= bullets(
            string_views(items@).take(i - 1),
        ).push("- "@ + items@[i - 1]@));
    }
    assert(string_views(items@).take(items.len() as int) =~= string_views(items@));
}

/// The lines that answer `configuration show <config>`.
pub open spec fn show_keys_spec(name: Seq<char>, keys: Result<Seq<Seq<char>>, Seq<char>>) -> Seq<
    Seq<char>,
> {
    match keys {
        Ok(ks) => seq![name + " keys:"@] + bullets(ks),
        Err(e) => seq!["Failed to load "@ + name + " config: "@ + e],
    }
}

/// The lines that answer `configuration show <config>`, given the result of
/// listing the provider's keys.
pub fn show_keys_lines(name: &str, keys: &Result<Vec<String>, String>) -> (lines: Vec<String>)
    ensures
        string_views(lines@) == show_keys_spec(
            name@,
            match keys {
                Ok(k) => Ok(string_views(k@)),
                Err(e) => Err(e@),
            },
        ),
{
    let mut lines: Vec<String> = Vec::new();
    match keys {
        Ok(k) => {
            lines.push(concat_str(name, " keys:"));
            assert(string_views(lines@) =~= seq![name@ + " keys:"@]);
            push_bullets(&mut lines, k);
        },
        Err(e) => {
            let a = concat_str("Failed to load ", name);
            let b = concat_str(a.as_str(), " config: ");
            lines.push(concat_str(b.as_str(), e.as_str()));
            assert(string_views(lines@) =~= seq!["Failed to load "@ + name@ + " config: "@ + e@]);
        },
    }
    lines
}

/// The line that answers a read: `<label> = <value>`, or the error.
pub fn get_response(label: &str, result: &Result<String, String>) -> (line: String)
    ensures
        line@ == match result {
            Ok(v) => label@ + " = "@ + v@,
            Err(e) => e@,
        },
{
    match result {
        Ok(v) => {
            let a = concat_str(label, " = ");
            concat_str(a.as_str(), v.as_str())
        },
        Err(e) => e.clone(),
    }
}

/// The line that answers a write: `Config updated`, or the error.
pub fn set_response(result: &Result<(), String>) -> (line: String)
    ensures
        line@ == match result {
            Ok(_) => "Config updated"@,
            Err(e) => e@,
        },
{
    match result {
        Ok(_) => "Config updated".to_owned(),
        Err(e) => e.clone(),
    }
}

/// The line that answers a reset of one key (`single_key`) or of a whole
/// configuration, or the error.
pub fn reset_response(single_key: bool, result: &Result<(), String>) -> (line: String)
    ensures
        line@ == match result {
            Ok(_) => if single_key {
                "Config key reset to default"@
            } else {
                "Config reset to defaults"@
            },
            Err(e) => e@,
        },
{
    match result {
        Ok(_) => if single_key {
            "Config key reset to default".to_owned()
        } else {
            "Config reset to defaults".to_owned()
        },
        Err(e) => e.clone(),
    }
}


/// `configuration set <key> <value>` always writes the value it was given,
/// and a key without a dot is a key of the `commandline` configuration.
pub proof fn law_set_writes_the_given_value(key: Seq<char>, value: Seq<char>)
    ensures
        configuration_plan(seq!["configuration"@, "set"@, key, value]) matches ConfigPlan::Write(_, _, v)
            ==> v == value,
        !key.contains('.') ==> configuration_plan(seq!["configuration"@, "set"@, key, value])
            == ConfigPlan::Write(ConfigProviderKind::Commandline, key, value),
{
    let p = seq!["configuration"@, "set"@, key, value];
    assert(p[0] == "configuration"@ && p[1] == "set"@ && p[2] == key && p[3] == value);
}

/// `configuration set <config>.<key> <value>` writes `value` to `<key>` of
/// the configuration named before the first dot, when that names one.
pub proof fn law_scoped_set_writes_the_named_config(
    name: Seq<char>,
    key: Seq<char>,
    value: Seq<char>,
)
    requires
        !name.contains('.'),
        provider_of(name) is Some,
    ensures
        configuration_plan(seq!["configuration"@, "set"@, name + "."@ + key, value])
            == ConfigPlan::Write(provider_of(name)->0, key, value),
{
    reveal_strlit(".");
    let r = name + "."@ + key;
    let p = seq!["configuration"@, "set"@, r, value];
    assert(p[0] == "configuration"@ && p[1] == "set"@ && p[2] == r && p[3] == value);
    let n = name.len() as int;
    assert(r[n] == '.');
    assert(r.contains('.'));
    let i = choose|i: int| 0 <= i < r.len() && r[i] == '.' && forall|j: int| 0 <= j < i ==> r[j] != '.';
    if i < n {
        assert(r[i] == name[i]);
    }
    if i > n {
        assert(r[n] != '.');
    }
    assert(i == n);
    assert(r.take(n) =~= name);
    assert(r.skip(n + 1) =~= key);
    assert(split_once_spec(r, '.') == Some((name, key)));
}

} // verus!
