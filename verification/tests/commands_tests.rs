use arcadia::commands::{command_specs, normalize_command, parse_execution_context, resolve_command};

fn words(items: &[&str]) -> Vec<String> {
    items.iter().map(|s| s.to_string()).collect()
}

#[test]
fn command_table_lists_builtins_in_order() {
    let names: Vec<&str> = command_specs().iter().map(|s| s.name).collect();
    assert_eq!(names, vec!["help", "ping", "configuration", "module", "quit"]);
    let cfg = &command_specs()[2];
    assert_eq!(cfg.aliases, vec!["config", "cfg"]);
    assert_eq!(cfg.subcommands, vec!["show", "get", "set", "reset"]);
}

#[test]
fn resolve_command_by_name_and_alias() {
    assert_eq!(resolve_command("help").unwrap().name, "help");
    assert_eq!(resolve_command("cfg").unwrap().name, "configuration");
    assert_eq!(resolve_command("config").unwrap().name, "configuration");
    assert!(resolve_command("Config").is_none());
    assert!(resolve_command("shell.execute").is_none());
    assert!(resolve_command("").is_none());
}

#[test]
fn normalize_command_maps_aliases() {
    assert_eq!(normalize_command("cfg"), "configuration");
    assert_eq!(normalize_command("config"), "configuration");
    assert_eq!(normalize_command("module"), "module");
    assert_eq!(normalize_command("lan.scan"), "lan.scan");
}

#[test]
fn normalize_is_idempotent_on_examples() {
    for w in ["cfg", "config", "help", "other", ""] {
        let once = normalize_command(w);
        assert_eq!(normalize_command(&once), once);
    }
}

#[test]
fn parse_context_without_flags_keeps_words() {
    let (cleaned, ctx) = parse_execution_context(&words(&["lan", "scan", "x"])).unwrap();
    assert_eq!(cleaned, words(&["lan", "scan", "x"]));
    assert!(ctx.net_as.is_none());
    assert!(ctx.net_timeout_ms.is_none());
}

#[test]
fn parse_context_takes_out_flags() {
    let parts = words(&["shell.execute", "--net:as", "lan:box", "ls", "--net:timeout", "+250", "-l"]);
    let (cleaned, ctx) = parse_execution_context(&parts).unwrap();
    assert_eq!(cleaned, words(&["shell.execute", "ls", "-l"]));
    assert_eq!(ctx.net_as.as_deref(), Some("lan:box"));
    assert_eq!(ctx.net_timeout_ms, Some(250));
}

#[test]
fn parse_context_later_flag_wins() {
    let parts = words(&["--net:as", "lan:a", "--net:as", "lan:b", "--net:timeout", "1", "--net:timeout", "2"]);
    let (cleaned, ctx) = parse_execution_context(&parts).unwrap();
    assert!(cleaned.is_empty());
    assert_eq!(ctx.net_as.as_deref(), Some("lan:b"));
    assert_eq!(ctx.net_timeout_ms, Some(2));
}

#[test]
fn parse_context_errors() {
    let e = parse_execution_context(&words(&["x", "--net:as"])).err().unwrap();
    assert_eq!(e, "Usage: --net:as lan:<host/ip/alias>");
    let e = parse_execution_context(&words(&["--net:as", "wan:host"])).err().unwrap();
    assert_eq!(e, "Unsupported --net:as target. Use lan:<host/ip/alias> (wan: coming later)");
    let e = parse_execution_context(&words(&["--net:timeout"])).err().unwrap();
    assert_eq!(e, "Usage: --net:timeout <milliseconds>");
    let e = parse_execution_context(&words(&["--net:timeout", "-5"])).err().unwrap();
    assert_eq!(e, "Invalid --net:timeout value. Use an integer in milliseconds");
    let e = parse_execution_context(&words(&["--net:timeout", "18446744073709551616"])).err().unwrap();
    assert_eq!(e, "Invalid --net:timeout value. Use an integer in milliseconds");
}

#[test]
fn parse_context_max_timeout() {
    let (_, ctx) = parse_execution_context(&words(&["--net:timeout", "18446744073709551615"])).unwrap();
    assert_eq!(ctx.net_timeout_ms, Some(u64::MAX));
}

#[test]
fn parse_context_strips_flags_in_order() {
    let parts = words(&["a", "--net:as", "lan:x", "b", "--net:timeout", "7", "c", "--net:as", "lan:y"]);
    let (cleaned, ctx) = parse_execution_context(&parts).unwrap();
    assert_eq!(cleaned, vec!["a", "b", "c"]);
    assert_eq!(ctx.net_as.as_deref(), Some("lan:y"));
    assert_eq!(ctx.net_timeout_ms, Some(7));
}

#[test]
fn parse_context_first_bad_flag_decides() {
    let e = parse_execution_context(&words(&["--net:as", "wan:x", "--net:timeout"])).err().unwrap();
    assert_eq!(e, "Unsupported --net:as target. Use lan:<host/ip/alias> (wan: coming later)");
    let e = parse_execution_context(&words(&["--net:timeout", "x", "--net:as"])).err().unwrap();
    assert_eq!(e, "Invalid --net:timeout value. Use an integer in milliseconds");
    let e = parse_execution_context(&words(&["--net:as", "--net:timeout", "5"])).err().unwrap();
    assert_eq!(e, "Unsupported --net:as target. Use lan:<host/ip/alias> (wan: coming later)");
}
