use arcadia::shell::{
    global_key_action, history_entry, initial_shell_history, is_clear_command,
    shell_input_with_cursor, shell_output_lines, GlobalKeyAction, KeyModifiers, ShellEditor, ShellMode,
};

fn plain() -> KeyModifiers {
    KeyModifiers { control: false, alt: false, shift: false, platform: false, function: false }
}

fn type_text(e: &mut ShellEditor, s: &str) {
    for ch in s.chars() {
        let t = ch.to_string();
        assert!(e.handle_key(&t, Some(&t), plain()).is_none());
    }
}

#[test]
fn modes() {
    assert!(ShellMode::Generic.toggle() == ShellMode::Internal);
    assert!(ShellMode::Generic.toggle().toggle() == ShellMode::Generic);
    assert_eq!(ShellMode::Generic.label(), "system");
    assert_eq!(ShellMode::Internal.label(), "internal");
    assert_eq!(ShellMode::Generic.command_token(), "shell.execute");
    assert_eq!(ShellMode::Internal.command_token(), "shell.internal");
}

#[test]
fn typing_and_editing() {
    let mut e = ShellEditor::new();
    type_text(&mut e, "ls");
    e.handle_key("space", None, plain());
    type_text(&mut e, "-a");
    assert_eq!(e.input_string(), "ls -a");
    assert_eq!(e.cursor, 5);
    e.handle_key("left", None, plain());
    e.handle_key("left", None, plain());
    e.handle_key("backspace", None, plain());
    assert_eq!(e.input_string(), "ls-a");
    assert_eq!(e.cursor, 2);
    e.handle_key("home", None, plain());
    assert_eq!(e.cursor, 0);
    e.handle_key("left", None, plain());
    assert_eq!(e.cursor, 0);
    e.handle_key("backspace", None, plain());
    assert_eq!(e.input_string(), "ls-a");
    e.handle_key("end", None, plain());
    e.handle_key("right", None, plain());
    assert_eq!(e.cursor, 4);
    let ctrl = KeyModifiers { control: true, ..plain() };
    e.handle_key("c", Some("c"), ctrl);
    assert_eq!(e.input_string(), "ls-a");
}

#[test]
fn typing_then_backspace_restores() {
    let mut e = ShellEditor::new();
    type_text(&mut e, "abc");
    e.handle_key("left", None, plain());
    e.handle_key("x", Some("x"), plain());
    assert_eq!(e.input_string(), "abxc");
    e.handle_key("backspace", None, plain());
    assert_eq!(e.input_string(), "abc");
    assert_eq!(e.cursor, 2);
}

#[test]
fn enter_and_history() {
    let mut e = ShellEditor::new();
    type_text(&mut e, "  pwd ");
    assert_eq!(e.handle_key("enter", None, plain()).as_deref(), Some("pwd"));
    assert_eq!(e.input_string(), "");
    type_text(&mut e, "ls");
    assert_eq!(e.handle_key("enter", None, plain()).as_deref(), Some("ls"));
    e.handle_key("space", None, plain());
    assert!(e.handle_key("enter", None, plain()).is_none());
    assert_eq!(e.command_history, vec!["pwd", "ls"]);
    e.handle_key("up", None, plain());
    assert_eq!(e.input_string(), "ls");
    assert_eq!(e.cursor, 2);
    e.handle_key("up", None, plain());
    assert_eq!(e.input_string(), "pwd");
    e.handle_key("up", None, plain());
    assert_eq!(e.input_string(), "pwd");
    assert_eq!(e.history_index, Some(0));
    e.handle_key("down", None, plain());
    assert_eq!(e.input_string(), "ls");
    e.handle_key("down", None, plain());
    assert_eq!(e.input_string(), "");
    assert!(e.history_index.is_none());
    e.handle_key("down", None, plain());
    assert_eq!(e.input_string(), "");
}

#[test]
fn caret() {
    let input: Vec<char> = "abc".chars().collect();
    assert_eq!(shell_input_with_cursor(&input, 1, true, true), "a|bc");
    assert_eq!(shell_input_with_cursor(&input, 3, true, true), "abc|");
    assert_eq!(shell_input_with_cursor(&input, 9, true, true), "abc|");
    assert_eq!(shell_input_with_cursor(&input, 1, false, true), "abc");
    assert_eq!(shell_input_with_cursor(&input, 1, true, false), "abc");
}

#[test]
fn clear_commands() {
    assert!(is_clear_command(" CLEAR "));
    assert!(is_clear_command("cls"));
    assert!(!is_clear_command("clear screen"));
}

#[test]
fn transcript_lines() {
    assert_eq!(shell_output_lines(&Ok(Some("a\r\nb\n".to_string()))), vec!["a", "b"]);
    assert_eq!(shell_output_lines(&Ok(Some("\n".to_string()))), vec![""]);
    assert!(shell_output_lines(&Ok(Some(String::new()))).is_empty());
    assert_eq!(shell_output_lines(&Ok(None)), vec!["Unknown shell command token."]);
    assert_eq!(shell_output_lines(&Err("x\ny".to_string())), vec!["x", "y"]);
    assert_eq!(history_entry(true, "ls"), "\x1b[38;2;96;165;250m$\x1b[0m ls");
    assert_eq!(history_entry(false, "ls"), "\x1b[38;2;29;78;216m$\x1b[0m ls");
}

#[test]
fn first_transcript() {
    let motd = vec!["Welcome".to_string()];
    assert_eq!(initial_shell_history(true, true, motd.clone()), vec!["Welcome", ""]);
    assert_eq!(initial_shell_history(true, false, motd), vec!["Arcadia Terminal ready."]);
}

#[test]
fn window_keys() {
    assert!(global_key_action("escape", false, true, false, false) == GlobalKeyAction::CloseAppMenu);
    assert!(global_key_action("tab", true, false, true, false) == GlobalKeyAction::ToggleShellMode);
    assert!(global_key_action("tab", true, false, true, true) == GlobalKeyAction::Nothing);
    assert!(global_key_action("tab", true, false, false, false) == GlobalKeyAction::Nothing);
    assert!(global_key_action("tab", false, false, true, false) == GlobalKeyAction::Nothing);
}
