//! Tab completion and inline hints for the interactive command line.

use vstd::prelude::*;
use crate::commands::{command_specs, command_table, normalize_command, normalize_spec, string_views, str_views};
use crate::config::{
    commandline_key_list, provider_name_list, provider_names, scoped, scoped_key_candidates,
    scoped_key_spec,
};
use crate::text::{
    byte_len, byte_offset, byte_slice, char_index, char_index_of_byte, chars_eq, chars_eq_str,
    chars_of, is_boundary, is_prefix, is_whitespace, is_ws, last_ws, lower, rfind_whitespace,
    slice_vec, split_whitespace, starts_with, string_of, to_ascii_lower, trim, trim_spec, words,
};

verus! {

/// Where the completion candidates come from.
pub enum CandidateSource {
    /// The built-in command words and the enabled modules' names and command tokens.
    RootTokens,
    /// A fixed list.
    Fixed(Vec<String>),
    /// The configuration provider names.
    ProviderNames,
    /// The provider names, then the scoped keys `<config>.<key>`.
    ProvidersAndScopedKeys,
    /// The module names of the modules configuration.
    ModuleKeys,
    /// The command names of the named enabled module.
    ModuleCommands(String),
    /// No candidates.
    Nothing,
}

/// The abstract content of a [`CandidateSource`].
pub enum SourceView {
    RootTokens,
    Fixed(Seq<Seq<char>>),
    ProviderNames,
    ProvidersAndScopedKeys,
    ModuleKeys,
    ModuleCommands(Seq<char>),
    Nothing,
}

impl View for CandidateSource {
    type V = SourceView;

    open spec fn view(&self) -> SourceView {
        match self {
            CandidateSource::RootTokens => SourceView::RootTokens,
            CandidateSource::Fixed(v) => SourceView::Fixed(string_views(v@)),
            CandidateSource::ProviderNames => SourceView::ProviderNames,
            CandidateSource::ProvidersAndScopedKeys => SourceView::ProvidersAndScopedKeys,
            CandidateSource::ModuleKeys => SourceView::ModuleKeys,
            CandidateSource::ModuleCommands(n) => SourceView::ModuleCommands(n@),
            CandidateSource::Nothing => SourceView::Nothing,
        }
    }
}

/// The byte offset where the word being completed starts in `head`: just
/// after its last whitespace character, or 0.
pub open spec fn word_start(head: Seq<char>) -> int {
    match last_ws(head) {
        Some(j) => byte_len(head.take(j)) + 1int,
        None => 0,
    }
}

/// The candidates for the word at index `active` of a line whose first word
/// is the canonical command `command`, with words `toks`.
pub open spec fn source_spec(command: Seq<char>, active: int, toks: Seq<Seq<char>>) -> SourceView {
    if command == "configuration"@ {
        if active == 1 {
            SourceView::Fixed(seq!["show"@, "get"@, "set"@, "reset"@])
        } else if active == 2 && toks.len() > 1 {
            if toks[1] == "show"@ {
                SourceView::ProviderNames
            } else if toks[1] == "get"@ || toks[1] == "set"@ || toks[1] == "reset"@ {
                SourceView::ProvidersAndScopedKeys
            } else {
                SourceView::Nothing
            }
        } else {
            SourceView::Nothing
        }
    } else if command == "module"@ {
        if active == 1 {
            SourceView::ModuleKeys
        } else if active == 2 {
            SourceView::Fixed(seq!["enable"@, "disable"@])
        } else if active == 3 && toks.len() > 2 && toks[2] == "enable"@ {
            SourceView::Fixed(seq!["-requirements"@])
        } else {
            SourceView::Nothing
        }
    } else if active == 1 {
        SourceView::ModuleCommands(command)
    } else {
        SourceView::Nothing
    }
}

/// Where the word being completed starts (a byte offset) and where its
/// candidates come from, for the text `head` before the cursor.
pub open spec fn completion_spec(head: Seq<char>) -> (int, SourceView) {
    let ends_with_space = head.len() > 0 && is_ws(head.last());
    let toks = words(head);
    if toks.len() == 0 {
        (0, SourceView::RootTokens)
    } else if toks.len() == 1 && !ends_with_space {
        (word_start(head), SourceView::RootTokens)
    } else {
        let active = if ends_with_space {
            toks.len() as int
        } else {
            toks.len() - 1
        };
        (word_start(head), source_spec(normalize_spec(toks[0]), active, toks))
    }
}

fn fixed(items: Vec<&'static str>) -> (r: CandidateSource)
    ensures
        r@ == SourceView::Fixed(str_views(items@)),
{
    let mut v: Vec<String> = Vec::new();
    let mut i: usize = 0;
    while i < items.len()
        invariant
            i <= items.len(),
            string_views(v@) == str_views(items@).take(i as int),
        decreases items.len() - i,
    {
        let ghost before = string_views(v@);
        let s = items[i].to_owned();
        v.push(s);
        i = i + 1;
        assert(string_views(v@) =~= before.push(s@));
        assert(str_views(items@).take(i as int) =~= str_views(items@).take(i - 1).push(items@[i - 1]@));
    }
    assert(str_views(items@).take(i as int) =~= str_views(items@));
    CandidateSource::Fixed(v)
}

fn word_start_of(head: &Vec<char>) -> (b: usize)
    requires
        byte_len(head@) <= usize::MAX,
    ensures
        b == word_start(head@),
{
    match rfind_whitespace(head) {
        Some(j) => {
            proof {
                crate::text::lemma_byte_len_monotone(head@, j as int, head@.len() as int);
                assert(head@.take(head@.len() as int) =~= head@);
            }
            byte_offset(head, j) + 1
        },
        None => 0,
    }
}

/// Where the word under the cursor starts (a byte offset of `line`) and
/// where its completion candidates come from. `pos` is the cursor's byte
/// offset and must fall between two characters.
pub fn completion_candidates(line: &str, pos: usize) -> (r: (usize, CandidateSource))
    requires
        is_boundary(line@, pos as int),
    ensures
        r.0 == completion_spec(line@.take(char_index(line@, pos as int))).0,
        r.1@ == completion_spec(line@.take(char_index(line@, pos as int))).1,
{
    let chars = chars_of(line);
    let k = match char_index_of_byte(&chars, pos) {
        Some(k) => k,
        None => {
            return (0, CandidateSource::Nothing);
        },
    };
    let head = slice_vec(&chars, 0, k);
    assert(head@ =~= line@.take(k as int));
    assert(byte_len(head@) == pos);
    let ends_with_space = head.len() > 0 && is_whitespace(head[head.len() - 1]);
    let toks = split_whitespace(&head);
    if toks.len() == 0 {
        return (0, CandidateSource::RootTokens);
    }
    let start = word_start_of(&head);
    if toks.len() == 1 && !ends_with_space {
        return (start, CandidateSource::RootTokens);
    }
    let first = string_of(&toks[0]);
    let command = chars_of(normalize_command(first.as_str()).as_str());
    let active: usize = if ends_with_space {
        toks.len()
    } else {
        toks.len() - 1
    };
    let ghost tv = crate::text::views(toks@);
    assert(tv[0] == toks@[0]@);
    let source = if chars_eq_str(&command, "configuration") {
        if active == 1 {
            let mut items: Vec<&'static str> = Vec::new();
            items.push("show");
            items.push("get");
            items.push("set");
            items.push("reset");
            let r = fixed(items);
            assert(str_views(items@) =~= seq!["show"@, "get"@, "set"@, "reset"@]);
            r
        } else if active == 2 && toks.len() > 1 {
            assert(tv[1] == toks@[1]@);
            if chars_eq_str(&toks[1], "show") {
                CandidateSource::ProviderNames
            } else if chars_eq_str(&toks[1], "get") || chars_eq_str(&toks[1], "set") || chars_eq_str(
                &toks[1],
                "reset",
            ) {
                CandidateSource::ProvidersAndScopedKeys
            } else {
                CandidateSource::Nothing
            }
        } else {
            CandidateSource::Nothing
        }
    } else if chars_eq_str(&command, "module") {
        if active == 1 {
            CandidateSource::ModuleKeys
        } else if active == 2 {
            let mut items: Vec<&'static str> = Vec::new();
            items.push("enable");
            items.push("disable");
            let r = fixed(items);
            assert(str_views(items@) =~= seq!["enable"@, "disable"@]);
            r
        } else if active == 3 && toks.len() > 2 && chars_eq_str(&toks[2], "enable") {
            assert(tv[2] == toks@[2]@);
            let mut items: Vec<&'static str> = Vec::new();
            items.push("-requirements");
            let r = fixed(items);
            assert(str_views(items@) =~= seq!["-requirements"@]);
            r
        } else {
            proof {
                if active == 3 && toks.len() > 2 {
                    assert(tv[2] == toks@[2]@);
                }
            }
            CandidateSource::Nothing
        }
    } else if active == 1 {
        CandidateSource::ModuleCommands(string_of(&command))
    } else {
        CandidateSource::Nothing
    };
    (start, source)
}

/// The words that complete an empty line: every built-in command name and
/// alias in table order, then the given module names and command tokens.
pub open spec fn root_tokens_spec(module_names: Seq<Seq<char>>, command_tokens: Seq<Seq<char>>) -> Seq<
    Seq<char>,
> {
    command_table().map_values(|c: crate::commands::CommandSpecView| seq![c.name] + c.aliases).flatten()
        + module_names + command_tokens
}

/// The words that complete the first word of a line: the built-in command
/// names and aliases, then `module_names` and `command_tokens` (those of
/// the enabled modules).
pub fn root_command_tokens(module_names: &Vec<String>, command_tokens: &Vec<String>) -> (r: Vec<String>)
    ensures
        string_views(r@) == root_tokens_spec(string_views(module_names@), string_views(command_tokens@)),
{
    let specs = command_specs();
    let mut out: Vec<String> = Vec::new();
    let ghost groups = command_table().map_values(
        |c: crate::commands::CommandSpecView| seq![c.name] + c.aliases,
    );
    let mut i: usize = 0;
    assert(groups.take(0).flatten() =~= Seq::<Seq<char>>::empty()) by {
        assert(groups.take(0) =~= Seq::<Seq<Seq<char>>>::empty());
    }
    while i < specs.len()
        invariant
            i <= specs@.len() == command_table().len(),
            groups == command_table().map_values(
                |c: crate::commands::CommandSpecView| seq![c.name] + c.aliases,
            ),
            forall|k: int| 0 <= k < specs@.len() ==> #[trigger] specs@[k]@ == command_table()[k],
            string_views(out@) == groups.take(i as int).flatten(),
        decreases specs.len() - i,
    {
        let ghost before = string_views(out@);
        assert(specs@[i as int]@ == command_table()[i as int]);
        let name = specs[i].name.to_owned();
        out.push(name);
        let ghost mid = string_views(out@);
        assert(mid =~= before.push(name@));
        let mut j: usize = 0;
        while j < specs[i].aliases.len()
            invariant
                i < specs@.len(),
                j <= specs@[i as int].aliases@.len(),
                string_views(out@) == mid + str_views(specs@[i as int].aliases@).take(j as int),
            decreases specs@[i as int].aliases@.len() - j,
        {
            let ghost b2 = string_views(out@);
            let a = specs[i].aliases[j].to_owned();
            out.push(a);
            j = j + 1;
            assert(string_views(out@) =~= b2.push(a@));
            assert(str_views(specs@[i as int].aliases@).take(j as int) =~= str_views(
                specs@[i as int].aliases@,
            ).take(j - 1).push(a@));
        }
        assert(str_views(specs@[i as int].aliases@).take(j as int) =~= str_views(
            specs@[i as int].aliases@,
        ));
        proof {
            let g = seq![command_table()[i as int].name] + command_table()[i as int].aliases;
            assert(groups[i as int] == g);
            assert(groups.take(i + 1) =~= groups.take(i as int).push(g));
            groups.take(i as int).lemma_flatten_push(g);
            assert(string_views(out@) =~= before + g);
        }
        i = i + 1;
    }
    assert(groups.take(i as int) =~= groups);
    crate::cli::push_all_lines(&mut out, module_names);
    crate::cli::push_all_lines(&mut out, command_tokens);
    out
}


/// What the candidate sources draw on: the enabled modules' names and
/// command tokens, the result of listing the module keys, and the command
/// names of the module named by [`CandidateSource::ModuleCommands`].
pub struct CompletionInputs {
    pub module_names: Vec<String>,
    pub command_tokens: Vec<String>,
    pub module_keys: Result<Vec<String>, String>,
    pub module_commands: Vec<String>,
}

/// The module keys, or none when they could not be listed.
pub open spec fn keys_or_empty(r: Result<Vec<String>, String>) -> Seq<Seq<char>> {
    match r {
        Ok(k) => string_views(k@),
        Err(_) => Seq::empty(),
    }
}

/// The candidates that a source yields from the given inputs.
pub open spec fn candidates_spec(source: SourceView, inputs: CompletionInputs) -> Seq<Seq<char>> {
    match source {
        SourceView::RootTokens => root_tokens_spec(
            string_views(inputs.module_names@),
            string_views(inputs.command_tokens@),
        ),
        SourceView::Fixed(v) => v,
        SourceView::ProviderNames => provider_name_list(),
        SourceView::ProvidersAndScopedKeys => provider_name_list() + scoped_key_spec(
            match inputs.module_keys {
                Ok(k) => Ok(string_views(k@)),
                Err(e) => Err(e@),
            },
        ),
        SourceView::ModuleKeys => keys_or_empty(inputs.module_keys),
        SourceView::ModuleCommands(_) => string_views(inputs.module_commands@),
        SourceView::Nothing => Seq::empty(),
    }
}

fn clone_strings(v: &Vec<String>) -> (r: Vec<String>)
    ensures
        string_views(r@) == string_views(v@),
{
    let mut r: Vec<String> = Vec::new();
    assert(string_views(r@) =~= Seq::<Seq<char>>::empty());
    crate::cli::push_all_lines(&mut r, v);
    assert(string_views(r@) =~= string_views(v@));
    r
}

/// The completion candidates that `source` yields from `inputs`.
pub fn candidates_for(source: &CandidateSource, inputs: &CompletionInputs) -> (r: Vec<String>)
    ensures
        string_views(r@) == candidates_spec(source@, *inputs),
{
    match source {
        CandidateSource::RootTokens => root_command_tokens(&inputs.module_names, &inputs.command_tokens),
        CandidateSource::Fixed(v) => clone_strings(v),
        CandidateSource::ProviderNames => provider_names(),
        CandidateSource::ProvidersAndScopedKeys => {
            let mut out = provider_names();
            let scoped = scoped_key_candidates(&inputs.module_keys);
            crate::cli::push_all_lines(&mut out, &scoped);
            out
        },
        CandidateSource::ModuleKeys => match &inputs.module_keys {
            Ok(k) => clone_strings(k),
            Err(_) => {
                let v: Vec<String> = Vec::new();
                assert(string_views(v@) =~= Seq::<Seq<char>>::empty());
                v
            },
        },
        CandidateSource::ModuleCommands(_) => clone_strings(&inputs.module_commands),
        CandidateSource::Nothing => {
            let v: Vec<String> = Vec::new();
            assert(string_views(v@) =~= Seq::<Seq<char>>::empty());
            v
        },
    }
}

/// The rest of the first candidate that extends `typed` (and is not `typed` itself).
pub open spec fn first_extension(cands: Seq<Seq<char>>, typed: Seq<char>) -> Option<Seq<char>>
    decreases cands.len(),
{
    if cands.len() == 0 {
        None
    } else if is_prefix(typed, cands[0]) && cands[0] != typed {
        Some(cands[0].skip(typed.len() as int))
    } else {
        first_extension(cands.drop_first(), typed)
    }
}

/// The inline hint for a line whose cursor is at byte `pos`, where the word
/// under the cursor starts at byte `start`: none unless the cursor is at the
/// end of the line and the word holds a non-whitespace character; otherwise
/// the rest of the first candidate that extends the word.
pub open spec fn hint_spec(line: Seq<char>, pos: int, start: int, cands: Seq<Seq<char>>) -> Option<
    Seq<char>,
> {
    if pos != byte_len(line) {
        None
    } else {
        let typed = byte_slice(line, start, pos);
        if trim_spec(typed).len() == 0 {
            None
        } else {
            first_extension(cands, typed)
        }
    }
}

/// The inline hint shown after the cursor (see [`hint_spec`]).
pub fn hint(line: &str, pos: usize, start: usize, suggestions: &Vec<String>) -> (r: Option<String>)
    requires
        pos == byte_len(line@) ==> is_boundary(line@, start as int) && start <= pos,
    ensures
        match hint_spec(line@, pos as int, start as int, string_views(suggestions@)) {
            Some(h) => r is Some && r->0@ == h,
            None => r is None,
        },
{
    let chars = chars_of(line);
    assert(chars@.take(chars@.len() as int) =~= chars@);
    let n = match char_index_of_byte(&chars, pos) {
        Some(n) => n,
        None => {
            proof {
                if pos == byte_len(line@) {
                    assert(byte_len(chars@.take(chars@.len() as int)) == pos);
                    assert(crate::text::is_boundary(chars@, pos as int));
                }
            }
            return None;
        },
    };
    if n != chars.len() {
        proof {
            crate::text::lemma_byte_len_monotone(chars@, n as int, chars@.len() as int);
            assert(chars@.take(chars@.len() as int) =~= chars@);
        }
        return None;
    }
    assert(chars@.take(chars@.len() as int) =~= chars@);
    let a = match char_index_of_byte(&chars, start) {
        Some(a) => a,
        None => {
            return None;
        },
    };
    if a > n {
        proof {
            crate::text::lemma_byte_len_monotone(chars@, n as int, a as int);
        }
        return None;
    }
    let typed = slice_vec(&chars, a, n);
    let t = trim(&typed);
    if t.len() == 0 {
        return None;
    }
    let ghost cands = string_views(suggestions@);
    let mut i: usize = 0;
    assert(cands.skip(0) =~= cands);
    assert(pos == byte_len(line@));
    assert(typed@ == byte_slice(line@, start as int, pos as int));
    while i < suggestions.len()
        invariant
            i <= suggestions@.len(),
            cands == string_views(suggestions@),
            pos == byte_len(line@),
            typed@ == byte_slice(line@, start as int, pos as int),
            trim_spec(typed@).len() != 0,
            first_extension(cands, typed@) == first_extension(cands.skip(i as int), typed@),
        decreases suggestions.len() - i,
    {
        let c = chars_of(suggestions[i].as_str());
        assert(cands.skip(i as int)[0] == c@);
        assert(cands.skip(i as int).drop_first() =~= cands.skip(i + 1));
        if starts_with(&c, &typed) && !chars_eq(&c, &typed) {
            let rest = slice_vec(&c, typed.len(), c.len());
            assert(rest@ =~= c@.skip(typed@.len() as int));
            return Some(string_of(&rest));
        }
        i = i + 1;
    }
    assert(cands.skip(i as int).len() == 0);
    None
}

/// The candidates that start with `prefix`, in order.
pub open spec fn with_prefix(cands: Seq<Seq<char>>, prefix: Seq<char>) -> Seq<Seq<char>>
    decreases cands.len(),
{
    if cands.len() == 0 {
        Seq::empty()
    } else {
        with_prefix(cands.drop_last(), prefix) + if is_prefix(prefix, cands.last()) {
            seq![cands.last()]
        } else {
            Seq::empty()
        }
    }
}

/// The completions offered for the word between bytes `start` and `pos` of
/// `line`: the candidates that start with its ASCII lower-case form.
pub fn complete_matches(line: &str, pos: usize, start: usize, suggestions: &Vec<String>) -> (r: Vec<
    String,
>)
    requires
        is_boundary(line@, start as int),
        is_boundary(line@, pos as int),
        start <= pos,
    ensures
        string_views(r@) == with_prefix(
            string_views(suggestions@),
            lower(byte_slice(line@, start as int, pos as int)),
        ),
{
    let chars = chars_of(line);
    let n = char_index_of_byte(&chars, pos).unwrap();
    let a = char_index_of_byte(&chars, start).unwrap();
    proof {
        if a > n {
            crate::text::lemma_byte_len_monotone(chars@, n as int, a as int);
        }
    }
    let typed = slice_vec(&chars, a, n);
    let prefix = to_ascii_lower(&typed);
    let ghost cands = string_views(suggestions@);
    let mut out: Vec<String> = Vec::new();
    let mut i: usize = 0;
    assert(string_views(out@) =~= Seq::<Seq<char>>::empty());
    while i < suggestions.len()
        invariant
            i <= suggestions@.len(),
            cands == string_views(suggestions@),
            string_views(out@) == with_prefix(cands.take(i as int), prefix@),
        decreases suggestions.len() - i,
    {
        let c = chars_of(suggestions[i].as_str());
        assert(cands.take(i + 1).drop_last() =~= cands.take(i as int));
        assert(cands.take(i + 1).last() == c@);
        let ghost before = string_views(out@);
        if starts_with(&c, &prefix) {
            out.push(suggestions[i].clone());
            assert(string_views(out@) =~= before + seq![c@]);
        } else {
            assert(string_views(out@) =~= before + Seq::<Seq<char>>::empty());
        }
        i = i + 1;
    }
    assert(cands.take(i as int) =~= cands);
    out
}


proof fn lemma_first_extension(cands: Seq<Seq<char>>, typed: Seq<char>)
    ensures
        first_extension(cands, typed) matches Some(h) ==> exists|k: int|
            0 <= k < cands.len() && #[trigger] cands[k] == typed + h && cands[k] != typed,
    decreases cands.len(),
{
    if cands.len() > 0 {
        lemma_first_extension(cands.drop_first(), typed);
        if is_prefix(typed, cands[0]) && cands[0] != typed {
            let h = cands[0].skip(typed.len() as int);
            assert(cands[0] =~= typed + h);
        } else if let Some(h) = first_extension(cands.drop_first(), typed) {
            let k = choose|k: int|
                0 <= k < cands.drop_first().len() && #[trigger] cands.drop_first()[k] == typed + h
                    && cands.drop_first()[k] != typed;
            assert(cands[k + 1] == cands.drop_first()[k]);
        }
    }
}

/// A hint is the rest of a candidate: the typed word followed by the hint
/// is one of the candidates, and the hint is not empty.
pub proof fn law_hint_completes_a_candidate(line: Seq<char>, pos: int, start: int, cands: Seq<Seq<char>>)
    ensures
        hint_spec(line, pos, start, cands) matches Some(h) ==> h.len() > 0 && exists|k: int|
            0 <= k < cands.len() && #[trigger] cands[k] == byte_slice(line, start, pos) + h,
{
    let typed = byte_slice(line, start, pos);
    lemma_first_extension(cands, typed);
    if let Some(h) = hint_spec(line, pos, start, cands) {
        let k = choose|k: int|
            0 <= k < cands.len() && #[trigger] cands[k] == typed + h && cands[k] != typed;
        if h.len() == 0 {
            assert(typed + h =~= typed);
        }
    }
}

/// The completions offered are exactly the candidates that start with the
/// prefix, in their original order: each of them starts with it, and each
/// comes from the candidates.
pub proof fn law_completions_match_prefix(cands: Seq<Seq<char>>, prefix: Seq<char>)
    ensures
        forall|k: int|
            0 <= k < with_prefix(cands, prefix).len() ==> is_prefix(prefix, #[trigger] with_prefix(cands, prefix)[k])
                && cands.contains(with_prefix(cands, prefix)[k]),
        with_prefix(cands, prefix).len() <= cands.len(),
    decreases cands.len(),
{
    if cands.len() > 0 {
        let init = cands.drop_last();
        law_completions_match_prefix(init, prefix);
        let a = with_prefix(init, prefix);
        let b: Seq<Seq<char>> = if is_prefix(prefix, cands.last()) {
            seq![cands.last()]
        } else {
            Seq::empty()
        };
        assert forall|k: int| 0 <= k < (a + b).len() implies is_prefix(prefix, #[trigger] (a + b)[k])
            && cands.contains((a + b)[k]) by {
            if k < a.len() {
                assert((a + b)[k] == a[k]);
                let j = choose|j: int| 0 <= j < init.len() && init[j] == a[k];
                assert(cands[j] == init[j]);
            } else {
                assert((a + b)[k] == cands.last());
                assert(cands[cands.len() - 1] == cands.last());
            }
        }
    }
}


/// The third word of `configuration get`, `set` or `reset` (the command
/// named by its name or an alias) is completed from the provider names,
/// `commandline` then `modules`, followed by every scoped key
/// `<config>.<key>`: each `commandline` key, and each module key when the
/// module keys could be read. The word starts after the last whitespace.
pub proof fn law_config_key_words_complete_to_scoped_keys(head: Seq<char>, inputs: CompletionInputs)
    requires
        words(head).len() >= 2,
        normalize_spec(words(head)[0]) == "configuration"@,
        words(head)[1] == "get"@ || words(head)[1] == "set"@ || words(head)[1] == "reset"@,
        (words(head).len() == 3 && !is_ws(head.last())) || (words(head).len() == 2 && is_ws(
            head.last(),
        )),
    ensures
        completion_spec(head).0 == word_start(head),
        ({
            let c = candidates_spec(completion_spec(head).1, inputs);
            &&& c.len() >= 2
            &&& c[0] == "commandline"@
            &&& c[1] == "modules"@
            &&& forall|k: int|
                0 <= k < commandline_key_list().len() ==> c.contains(
                    "commandline"@ + "."@ + #[trigger] commandline_key_list()[k],
                )
            &&& inputs.module_keys matches Ok(keys) ==> forall|k: int|
                0 <= k < keys@.len() ==> c.contains("modules"@ + "."@ + #[trigger] keys@[k]@)
        }),
{
    reveal_strlit("show");
    reveal_strlit("get");
    reveal_strlit("set");
    reveal_strlit("reset");
    assert(words(head)[1] != "show"@) by {
        assert(words(head)[1].len() != "show"@.len());
    }
    assert(head.len() > 0) by {
        if head.len() == 0 {
            assert(words(head).len() == 0);
        }
    }
    let ms = match inputs.module_keys {
        Ok(k) => Ok(string_views(k@)),
        Err(e) => Err(e@),
    };
    assert(completion_spec(head).1 == SourceView::ProvidersAndScopedKeys);
    let c = candidates_spec(SourceView::ProvidersAndScopedKeys, inputs);
    let cl = scoped("commandline"@, commandline_key_list());
    assert(c == provider_name_list() + (cl + match ms {
        Ok(keys) => scoped("modules"@, keys),
        Err(_) => Seq::empty(),
    }));
    assert forall|k: int| 0 <= k < commandline_key_list().len() implies c.contains(
        "commandline"@ + "."@ + #[trigger] commandline_key_list()[k],
    ) by {
        assert(c[2 + k] == cl[k]);
    }
    match inputs.module_keys {
        Ok(keys) => {
            let ml = scoped("modules"@, string_views(keys@));
            assert forall|k: int| 0 <= k < keys@.len() implies c.contains(
                "modules"@ + "."@ + #[trigger] keys@[k]@,
            ) by {
                assert(c[2 + cl.len() + k] == ml[k]);
            }
        },
        Err(_) => {},
    }
}

} // verus!
