use arcadia::config::{
    bool_string, commandline_get, commandline_get_value, commandline_keys, commandline_reset,
    commandline_set, get_response, handle_configuration, modules_get, modules_keys,
    modules_reset_value, parse_module_value, provider_names, reset_response, resolve_provider,
    scoped_key_candidates, set_response, show_keys_lines, CommandlineConfig, ConfigProviderKind,
    ConfigRequest, ModulesConfig,
};

fn cfg() -> CommandlineConfig {
    CommandlineConfig {
        input_symbol: ">".to_string(),
        output_symbol: "<".to_string(),
        input_color: "cyan".to_string(),
        output_color: "green".to_string(),
        clear_on_start: false,
    }
}

fn defaults() -> CommandlineConfig {
    CommandlineConfig {
        input_symbol: "$".to_string(),
        output_symbol: "#".to_string(),
        input_color: "blue".to_string(),
        output_color: "white".to_string(),
        clear_on_start: true,
    }
}

#[test]
fn keys_and_values() {
    assert_eq!(
        commandline_keys().unwrap(),
        vec!["input_symbol", "output_symbol", "input_color", "output_color", "clear_on_start"]
    );
    let c = cfg();
    assert_eq!(commandline_get(&c, "input_symbol").unwrap(), ">");
    assert_eq!(commandline_get(&c, "output_color").unwrap(), "green");
    assert_eq!(commandline_get(&c, "clear_on_start").unwrap(), "false");
    assert_eq!(commandline_get(&c, "nope").err().unwrap(), "Unknown config key");
    assert!(commandline_get_value(&c, "nope").is_none());
    assert_eq!(bool_string(true), "true");
}

#[test]
fn set_then_get_returns_value() {
    let mut c = cfg();
    commandline_set(&mut c, "output_symbol", "=>").unwrap();
    assert_eq!(commandline_get(&c, "output_symbol").unwrap(), "=>");
    assert_eq!(commandline_get(&c, "input_symbol").unwrap(), ">");
    commandline_set(&mut c, "clear_on_start", "TRUE").unwrap();
    assert!(c.clear_on_start);
    assert_eq!(commandline_get(&c, "clear_on_start").unwrap(), "true");
    commandline_set(&mut c, "clear_on_start", "False").unwrap();
    assert!(!c.clear_on_start);
}

#[test]
fn set_errors_leave_config_alone() {
    let mut c = cfg();
    assert_eq!(
        commandline_set(&mut c, "clear_on_start", "yes").err().unwrap(),
        "clear_on_start must be true or false"
    );
    assert_eq!(commandline_set(&mut c, "colour", "red").err().unwrap(), "Unknown config key");
    assert_eq!(c.input_symbol, ">");
    assert!(!c.clear_on_start);
}

#[test]
fn reset_restores_defaults() {
    let mut c = cfg();
    commandline_reset(&mut c, Some("input_color"), &defaults()).unwrap();
    assert_eq!(c.input_color, "blue");
    assert_eq!(c.output_color, "green");
    commandline_reset(&mut c, Some("clear_on_start"), &defaults()).unwrap();
    assert!(c.clear_on_start);
    assert_eq!(commandline_reset(&mut c, Some("x"), &defaults()).err().unwrap(), "Unknown config key");
    commandline_reset(&mut c, None, &defaults()).unwrap();
    assert_eq!(c.input_symbol, "$");
    assert_eq!(c.output_symbol, "#");
}

#[test]
fn providers() {
    assert_eq!(provider_names(), vec!["commandline", "modules"]);
    assert!(matches!(resolve_provider("modules").unwrap().kind, ConfigProviderKind::Modules));
    assert_eq!(resolve_provider("commandline").unwrap().name, "commandline");
    assert!(resolve_provider("Modules").is_none());
}

#[test]
fn scoped_keys() {
    let keys = Ok(vec!["shell".to_string(), "lan".to_string()]);
    let c = scoped_key_candidates(&keys);
    assert_eq!(c.len(), 7);
    assert_eq!(c[0], "commandline.input_symbol");
    assert_eq!(c[4], "commandline.clear_on_start");
    assert_eq!(c[5], "modules.shell");
    assert_eq!(c[6], "modules.lan");
    let c = scoped_key_candidates(&Err("io".to_string()));
    assert_eq!(c.len(), 5);
}

fn modules() -> ModulesConfig {
    ModulesConfig { modules: vec![("shell".to_string(), true), ("lan".to_string(), false)] }
}

#[test]
fn modules_config() {
    let m = modules();
    assert_eq!(modules_keys(&m), vec!["shell", "lan"]);
    assert_eq!(modules_get(&m, "lan").unwrap(), "false");
    assert_eq!(modules_get(&m, "net").err().unwrap(), "Unknown module key");
    assert_eq!(parse_module_value("TrUe").unwrap(), true);
    assert_eq!(parse_module_value("no").err().unwrap(), "Module value must be true or false");
    assert_eq!(modules_reset_value(&m, "shell").unwrap(), true);
    assert_eq!(modules_reset_value(&m, "x").err().unwrap(), "Unknown module key");
}

fn plan(parts: &[&str]) -> ConfigRequest {
    handle_configuration(parts)
}

fn lines_of(r: ConfigRequest) -> Vec<String> {
    match r {
        ConfigRequest::Respond(l) => l,
        _ => panic!("expected lines"),
    }
}

#[test]
fn configuration_plans() {
    assert_eq!(lines_of(plan(&["configuration"])), vec!["Available configs:", "- commandline", "- modules"]);
    assert_eq!(lines_of(plan(&["configuration", "show"])).len(), 3);
    assert!(matches!(plan(&["configuration", "show", "modules"]), ConfigRequest::ListKeys(p) if p.name == "modules"));
    assert!(matches!(plan(&["configuration", "show", "commandline"]), ConfigRequest::ListKeys(p) if p.name == "commandline"));
    assert_eq!(lines_of(plan(&["configuration", "show", "x"])), vec!["Unknown config"]);
    match plan(&["configuration", "get", "input_symbol"]) {
        ConfigRequest::Read { provider, key, label } => {
            assert_eq!(provider.name, "commandline");
            assert_eq!(key, "input_symbol");
            assert_eq!(label, "input_symbol");
        }
        _ => panic!(),
    }
    match plan(&["configuration", "get", "modules.shell"]) {
        ConfigRequest::Read { provider, key, label } => {
            assert_eq!(provider.name, "modules");
            assert_eq!(key, "shell");
            assert_eq!(label, "modules.shell");
        }
        _ => panic!(),
    }
    assert_eq!(lines_of(plan(&["configuration", "get", "x.y"])), vec!["Unknown config"]);
    match plan(&["configuration", "set", "commandline.output_color", "red"]) {
        ConfigRequest::Write { provider, key, value } => {
            assert_eq!(provider.name, "commandline");
            assert_eq!(key, "output_color");
            assert_eq!(value, "red");
        }
        _ => panic!(),
    }
    match plan(&["configuration", "reset", "modules"]) {
        ConfigRequest::Reset { provider, target } => {
            assert_eq!(provider.name, "modules");
            assert!(target.is_none());
        }
        _ => panic!(),
    }
    match plan(&["configuration", "reset", "commandline.input_color"]) {
        ConfigRequest::Reset { target, .. } => assert_eq!(target.as_deref(), Some("input_color")),
        _ => panic!(),
    }
    assert!(matches!(plan(&["configuration", "reset"]), ConfigRequest::Reset { target: None, .. }));
    assert!(matches!(plan(&["configuration", "modules"]), ConfigRequest::Open(p) if p.name == "modules"));
    assert_eq!(lines_of(plan(&["configuration", "get"])), vec!["Unknown config"]);
    let usage = lines_of(plan(&["configuration", "set", "a"]));
    assert_eq!(usage.len(), 2);
    assert_eq!(usage[1], "Keys: input_symbol, output_symbol, input_color, output_color, clear_on_start");
}

#[test]
fn configuration_messages() {
    assert_eq!(
        show_keys_lines("modules", &Ok(vec!["shell".to_string()])),
        vec!["modules keys:", "- shell"]
    );
    assert_eq!(
        show_keys_lines("modules", &Err("denied".to_string())),
        vec!["Failed to load modules config: denied"]
    );
    assert_eq!(get_response("commandline.input_symbol", &Ok(">".to_string())), "commandline.input_symbol = >");
    assert_eq!(get_response("k", &Err("Unknown config key".to_string())), "Unknown config key");
    assert_eq!(set_response(&Ok(())), "Config updated");
    assert_eq!(reset_response(true, &Ok(())), "Config key reset to default");
    assert_eq!(reset_response(false, &Ok(())), "Config reset to defaults");
    assert_eq!(reset_response(false, &Err("e".to_string())), "e");
}
