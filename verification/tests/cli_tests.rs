use arcadia::cli::{
    builtin_response, call_answer, help_lines, plan_command, plan_result, Builtin, CommandPlan,
    CommandResult,
};

#[test]
fn plan_configuration_and_module() {
    match plan_command("  cfg show  ") {
        CommandPlan::Configuration(p) => assert_eq!(p, vec!["configuration", "show"]),
        _ => panic!(),
    }
    match plan_command("module shell enable --net:as lan:pi") {
        CommandPlan::Module(p) => assert_eq!(p, vec!["module", "shell", "enable"]),
        _ => panic!(),
    }
}

#[test]
fn plan_reports_flag_errors() {
    match plan_command("lan.scan --net:timeout soon") {
        CommandPlan::Respond(l) => {
            assert_eq!(l, vec!["Invalid --net:timeout value. Use an integer in milliseconds"])
        }
        _ => panic!(),
    }
}

#[test]
fn plan_module_calls() {
    match plan_command("lan.scan --range 10.0.0.0/24 --net:as lan:host") {
        CommandPlan::Run { calls, context, fallback } => {
            assert_eq!(calls.len(), 2);
            assert_eq!(calls[0].token, "lan.scan");
            assert_eq!(calls[0].args, vec!["--range", "10.0.0.0/24"]);
            assert_eq!(calls[1].token, "lan.scan.--range");
            assert_eq!(calls[1].args, vec!["10.0.0.0/24"]);
            assert_eq!(context.net_as.as_deref(), Some("lan:host"));
            match fallback {
                Builtin::Unknown(t) => assert_eq!(t, "lan.scan --range 10.0.0.0/24 --net:as lan:host"),
                _ => panic!(),
            }
        }
        _ => panic!(),
    }
    match plan_command("shell execute ls") {
        CommandPlan::Run { calls, .. } => {
            assert_eq!(calls.len(), 1);
            assert_eq!(calls[0].token, "shell.execute");
            assert_eq!(calls[0].args, vec!["ls"]);
        }
        _ => panic!(),
    }
}

#[test]
fn plan_builtins() {
    for (line, want) in [("help", 0), ("ping", 1), ("quit", 2), ("   ", 3)] {
        match plan_command(line) {
            CommandPlan::Run { calls, fallback, .. } => {
                assert!(calls.is_empty());
                let got = match fallback {
                    Builtin::Help => 0,
                    Builtin::Ping => 1,
                    Builtin::Quit => 2,
                    Builtin::Empty => 3,
                    Builtin::Unknown(_) => 4,
                };
                assert_eq!(got, want);
            }
            _ => panic!(),
        }
    }
}

#[test]
fn builtin_answers() {
    let none: Vec<String> = Vec::new();
    let (l, r) = builtin_response(&Builtin::Ping, &none);
    assert_eq!(l, vec!["pong"]);
    assert!(r == CommandResult::Continue);
    let (l, r) = builtin_response(&Builtin::Quit, &none);
    assert!(l.is_empty());
    assert!(r == CommandResult::Quit);
    let (l, _) = builtin_response(&Builtin::Unknown("foo bar".to_string()), &none);
    assert_eq!(l, vec!["Unknown command: foo bar"]);
}

#[test]
fn help_text() {
    let lines = help_lines(&Vec::new());
    assert_eq!(
        lines,
        vec![
            "Available commands:",
            "- help: show this help message",
            "- ping: respond with pong",
            "- configuration <name>: open config file in default editor",
            "- configuration [show|get|set|reset] ...: manage commandline config",
            "- aliases: config -> cfg -> configuration",
            "- module <name> enable|disable: toggle a module",
            "- module <name> enable -requirements: enable module and required dependencies",
            "- quit: exit Arcadia",
            "- global flags: --net:as lan:<host/ip/alias> | --net:timeout <milliseconds>",
        ]
    );
    let lines = help_lines(&vec!["- lan.scan: scan".to_string()]);
    assert_eq!(lines[9], "- enabled module commands:");
    assert_eq!(lines[10], "- lan.scan: scan");
    assert_eq!(lines.len(), 12);
}

#[test]
fn module_call_answers() {
    assert_eq!(call_answer(&Ok(Some("done".to_string()))).as_deref(), Some("done"));
    assert!(call_answer(&Ok(None)).is_none());
    assert_eq!(call_answer(&Err("boom".to_string())).as_deref(), Some("boom"));
}

fn is_quit(line: &str) -> bool {
    matches!(plan_command(line), CommandPlan::Run { fallback: Builtin::Quit, .. })
}

#[test]
fn quit_only_from_first_word_quit() {
    assert!(is_quit("quit"));
    assert!(is_quit("  quit  "));
    assert!(is_quit("--net:timeout 50 quit"));
    assert!(is_quit("quit now"));
    assert!(!is_quit("quitting"));
    assert!(!is_quit("help quit"));
    assert!(!is_quit("quit --net:as wan:x"));
    assert!(!is_quit(""));
}

#[test]
fn only_an_unanswered_quit_ends_the_loop() {
    assert!(plan_result(&plan_command("cfg"), false) == CommandResult::Continue);
    assert!(plan_result(&plan_command("module lan enable"), false) == CommandResult::Continue);
    let p = plan_command("ping --net:as");
    match &p {
        CommandPlan::Respond(l) => assert_eq!(l, &vec!["Usage: --net:as lan:<host/ip/alias>"]),
        _ => panic!(),
    }
    assert!(plan_result(&p, false) == CommandResult::Continue);
    assert!(plan_result(&plan_command("ping"), false) == CommandResult::Continue);
    assert!(plan_result(&plan_command("quit"), false) == CommandResult::Quit);
    assert!(plan_result(&plan_command("--net:as lan:pi quit"), false) == CommandResult::Quit);
    assert!(plan_result(&plan_command("quit now"), true) == CommandResult::Continue);
}
