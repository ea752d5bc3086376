use arcadia::completion::{
    candidates_for, complete_matches, completion_candidates, hint, root_command_tokens,
    CandidateSource, CompletionInputs,
};

fn inputs() -> CompletionInputs {
    CompletionInputs {
        module_names: vec!["lan".to_string()],
        command_tokens: vec!["lan.scan".to_string()],
        module_keys: Ok(vec!["lan".to_string(), "shell".to_string()]),
        module_commands: vec!["scan".to_string(), "node".to_string()],
    }
}

fn fixed(s: &CandidateSource) -> Vec<String> {
    match s {
        CandidateSource::Fixed(v) => v.clone(),
        _ => panic!("expected a fixed list"),
    }
}

#[test]
fn root_tokens() {
    let t = root_command_tokens(&vec!["lan".to_string()], &vec!["lan.scan".to_string()]);
    assert_eq!(
        t,
        vec!["help", "ping", "configuration", "config", "cfg", "module", "quit", "lan", "lan.scan"]
    );
}

#[test]
fn empty_and_first_word() {
    let (start, src) = completion_candidates("", 0);
    assert_eq!(start, 0);
    assert!(matches!(src, CandidateSource::RootTokens));
    let (start, src) = completion_candidates("  con", 5);
    assert_eq!(start, 2);
    assert!(matches!(src, CandidateSource::RootTokens));
}

#[test]
fn configuration_words() {
    let (start, src) = completion_candidates("cfg ", 4);
    assert_eq!(start, 4);
    assert_eq!(fixed(&src), vec!["show", "get", "set", "reset"]);
    let (start, src) = completion_candidates("configuration get com", 21);
    assert_eq!(start, 18);
    assert!(matches!(src, CandidateSource::ProvidersAndScopedKeys));
    let (_, src) = completion_candidates("configuration show ", 19);
    assert!(matches!(src, CandidateSource::ProviderNames));
    let (_, src) = completion_candidates("configuration open ", 19);
    assert!(matches!(src, CandidateSource::Nothing));
}

#[test]
fn module_words() {
    let (_, src) = completion_candidates("module ", 7);
    assert!(matches!(src, CandidateSource::ModuleKeys));
    let (_, src) = completion_candidates("module lan ", 11);
    assert_eq!(fixed(&src), vec!["enable", "disable"]);
    let (_, src) = completion_candidates("module lan enable ", 18);
    assert_eq!(fixed(&src), vec!["-requirements"]);
    let (_, src) = completion_candidates("module lan disable ", 19);
    assert!(matches!(src, CandidateSource::Nothing));
}

#[test]
fn module_command_words() {
    let (start, src) = completion_candidates("lan sc", 6);
    assert_eq!(start, 4);
    match src {
        CandidateSource::ModuleCommands(m) => assert_eq!(m, "lan"),
        _ => panic!(),
    }
    let (start, _) = completion_candidates("lan scan", 3);
    assert_eq!(start, 0);
}

#[test]
fn candidate_lists() {
    let i = inputs();
    assert_eq!(candidates_for(&CandidateSource::ModuleKeys, &i), vec!["lan", "shell"]);
    let all = candidates_for(&CandidateSource::ProvidersAndScopedKeys, &i);
    assert_eq!(all[0], "commandline");
    assert_eq!(all[1], "modules");
    assert_eq!(all[2], "commandline.input_symbol");
    assert_eq!(all.last().unwrap(), "modules.shell");
    assert_eq!(candidates_for(&CandidateSource::ModuleCommands("lan".to_string()), &i), vec!["scan", "node"]);
    assert!(candidates_for(&CandidateSource::Nothing, &i).is_empty());
    let mut no_keys = inputs();
    no_keys.module_keys = Err("io".to_string());
    assert!(candidates_for(&CandidateSource::ModuleKeys, &no_keys).is_empty());
}

#[test]
fn hints() {
    let sugg = vec!["configuration".to_string(), "config".to_string(), "cfg".to_string()];
    assert_eq!(hint("con", 3, 0, &sugg).as_deref(), Some("figuration"));
    assert!(hint("configuration", 13, 0, &vec!["configuration".to_string()]).is_none());
    assert!(hint("con", 2, 0, &sugg).is_none());
    assert!(hint("con ", 4, 4, &sugg).is_none());
    assert!(hint("xyz", 3, 0, &sugg).is_none());
}

#[test]
fn completions() {
    let sugg = vec!["show".to_string(), "set".to_string(), "reset".to_string()];
    assert_eq!(complete_matches("cfg S", 5, 4, &sugg), vec!["show", "set"]);
    assert_eq!(complete_matches("cfg re", 6, 4, &sugg), vec!["reset"]);
    assert_eq!(complete_matches("cfg ", 4, 4, &sugg).len(), 3);
}

#[test]
fn multibyte_positions() {
    // "é" takes two bytes
    let (start, src) = completion_candidates("é ", 3);
    assert_eq!(start, 3);
    assert!(matches!(src, CandidateSource::ModuleCommands(ref m) if m == "é"));
}
