use arcadia::lan::{
    is_arcadia_command, lan_execute_feedback, lsof_candidate_pids, peer_actions, scan_feedback,
    start_service_outcome,
};
use arcadia::late::{format_timestamp, send_frame, ComposeBox};
use arcadia::modules::{handle_module, list_modules_lines, module_state_response, module_usage_line, ModuleRequest};
use arcadia::platform::{current, PlatformInfo};
use arcadia::session::{
    bootstrap_route, module_command, module_row_toggle, requirements_outcome, requirements_prompt_text,
    ModuleToggle, RequirementsOutcome,
};
use arcadia::shell::KeyModifiers;
use arcadia::text::{chars_of, decimal_chars, parse_u64, string_of};
use arcadia::theme::icon_path;

#[test]
fn platform_name() {
    assert_eq!(current().name(), "macos");
}

#[test]
fn icons() {
    assert_eq!(icon_path("home"), "icons/home.svg");
    assert_eq!(icon_path("tools"), "icons/tools.svg");
    assert_eq!(icon_path("nodes"), "icons/terminal.svg");
}

#[test]
fn decimal_text() {
    let p = |s: &str| parse_u64(&chars_of(s));
    assert_eq!(p("0"), Some(0));
    assert_eq!(p("+7"), Some(7));
    assert_eq!(p("007"), Some(7));
    assert_eq!(p(""), None);
    assert_eq!(p("+"), None);
    assert_eq!(p(" 1"), None);
    assert_eq!(p("1a"), None);
    assert_eq!(string_of(&decimal_chars(0)), "0");
    assert_eq!(string_of(&decimal_chars(1234567890)), "1234567890");
    assert_eq!(string_of(&decimal_chars(u64::MAX)), u64::MAX.to_string());
}

#[test]
fn module_requests() {
    match handle_module(&["module", "lan", "enable", "-requirements"]) {
        ModuleRequest::SetState { name, enabled, with_requirements } => {
            assert_eq!(name, "lan");
            assert!(enabled && with_requirements);
        }
        _ => panic!(),
    }
    assert!(matches!(handle_module(&["module", "lan", "disable"]), ModuleRequest::SetState { enabled: false, .. }));
    assert!(matches!(handle_module(&["module"]), ModuleRequest::ListModules));
    assert!(matches!(handle_module(&["module", "lan"]), ModuleRequest::Usage));
    assert!(matches!(handle_module(&["module", "lan", "disable", "x"]), ModuleRequest::Usage));
    assert_eq!(module_state_response("lan", true, false, &Ok(())), "Module lan enabled");
    assert_eq!(module_state_response("lan", true, true, &Ok(())), "Module lan enabled (requirements enabled)");
    assert_eq!(module_state_response("lan", false, false, &Ok(())), "Module lan disabled");
    assert_eq!(module_state_response("lan", false, false, &Err("no".to_string())), "no");
    assert_eq!(
        list_modules_lines(&Ok(vec!["lan".to_string()])),
        vec!["Usage: module <name> enable [-requirements]|disable", "Available modules:", "- lan"]
    );
    assert_eq!(list_modules_lines(&Ok(vec![])).len(), 1);
    assert_eq!(list_modules_lines(&Err("io".to_string()))[1], "Failed to list modules: io");
    assert_eq!(module_usage_line(), "Usage: module <name> enable [-requirements]|disable");
}

#[test]
fn lan_decisions() {
    let (f, p) = start_service_outcome(&Ok(()));
    assert_eq!(f, "LAN discovery service started.");
    assert!(p.is_none());
    let (f, p) = start_service_outcome(&Err("Address already in use (os error 48)".to_string()));
    assert_eq!(f, "Failed to start LAN discovery service: Address already in use (os error 48)");
    assert_eq!(p.as_deref(), Some("Address already in use (os error 48)"));
    let (_, p) = start_service_outcome(&Err("bind PORT busy".to_string()));
    assert!(p.is_some());
    let (_, p) = start_service_outcome(&Err("permission denied".to_string()));
    assert!(p.is_none());
    let labels: Vec<(&str, &str)> = peer_actions("pending-inbound").iter().map(|a| (a.label, a.subcommand)).collect();
    assert_eq!(labels, vec![("Accept", "accept"), ("Reject", "reject")]);
    assert_eq!(peer_actions("connected")[0].subcommand, "save");
    assert_eq!(peer_actions("lost")[0].label, "Pair again");
    assert_eq!(lan_execute_feedback("lan.node", &Ok(None)), "Unknown command: lan.node");
    assert_eq!(lan_execute_feedback("lan.node", &Ok(Some("ok".to_string()))), "ok");
    assert_eq!(scan_feedback(3), "Scan finished — 3 peer(s).");
    assert_eq!(lsof_candidate_pids("123\n 456 \nabc\n42\n", 42), vec![123, 456]);
    assert!(lsof_candidate_pids("", 1).is_empty());
    assert_eq!(lsof_candidate_pids("4294967296\n7", 1), vec![7]);
    assert!(is_arcadia_command("/Applications/Arcadia.app/Contents/MacOS/Arcadia"));
    assert!(!is_arcadia_command("/usr/bin/python3"));
}

#[test]
fn chat() {
    assert_eq!(format_timestamp("2024-05-01T13:45:10Z"), "13:45");
    assert_eq!(format_timestamp("13:45"), "13:45");
    assert_eq!(format_timestamp("2024-05-01Té3:45:10Z"), "é3:4");
    assert_eq!(format_timestamp("not a timestamp at all"), "tamp ");
    assert_eq!(format_timestamp("2024-05-01 08:05:00"), "08:05");
    assert_eq!(format_timestamp("2024-05-01T13:45"), "13:45");
    assert_eq!(format_timestamp("é024-05-01T13:45:10Z"), "T13:4");
    assert_eq!(format_timestamp("2024-05-01T13:4é:10Z"), "2024-05-01T13:4é:10Z");
    assert_eq!(send_frame(7, "hi \"you\"\n"), "{\"type\":\"send\",\"room_id\":7,\"body\":\"hi \\\"you\\\"\\n\"}");
    assert_eq!(send_frame(0, "\u{1}"), "{\"type\":\"send\",\"room_id\":0,\"body\":\"\\u0001\"}");
    let plain = KeyModifiers { control: false, alt: false, shift: false, platform: false, function: false };
    let mut b = ComposeBox { text: Vec::new(), room: 3 };
    assert!(b.handle_key("h", Some("h"), plain).is_none());
    assert!(b.handle_key("i", Some("i"), plain).is_none());
    b.handle_key("backspace", None, plain);
    b.handle_key("i", Some("i!"), plain);
    let frame = b.handle_key("enter", None, plain).unwrap();
    assert_eq!(frame, "{\"type\":\"send\",\"room_id\":3,\"body\":\"hi!\"}");
    assert!(b.text.is_empty());
    assert!(b.handle_key("return", None, plain).is_none());
    let ctrl = KeyModifiers { control: true, ..plain };
    b.handle_key("space", None, ctrl);
    assert_eq!(b.text, vec![' ']);
    assert!(b.send().is_none());
    assert_eq!(b.text, vec![' ']);
}

#[test]
fn session_decisions() {
    assert_eq!(bootstrap_route(Some(" lan:pi "), Some("lan:mac"), true, true).as_deref(), Some("lan:pi"));
    assert!(bootstrap_route(Some("  "), Some("lan:mac"), true, true).is_none());
    assert_eq!(bootstrap_route(None, Some("lan:mac"), true, true).as_deref(), Some("lan:mac"));
    assert!(bootstrap_route(None, Some("lan:mac"), true, false).is_none());
    assert_eq!(module_command("lan", true, true), "module lan enable -requirements");
    assert!(matches!(module_row_toggle("lan", true, true), ModuleToggle::RemotePatch { enabled: false, .. }));
    match module_row_toggle("lan", true, false) {
        ModuleToggle::RunCommand(c) => assert_eq!(c, "module lan disable"),
        _ => panic!(),
    }
    assert!(matches!(module_row_toggle("lan", false, false), ModuleToggle::CheckRequirements(_)));
    match requirements_outcome("remote", Ok(vec![])) {
        RequirementsOutcome::RunCommand(c) => assert_eq!(c, "module remote enable"),
        _ => panic!(),
    }
    assert!(matches!(requirements_outcome("remote", Ok(vec!["net".to_string()])), RequirementsOutcome::Prompt(..)));
    assert!(matches!(requirements_outcome("remote", Err("e".to_string())), RequirementsOutcome::Failed(_)));
    assert_eq!(
        requirements_prompt_text("remote", &vec!["net".to_string(), "lan".to_string()]),
        "To enable remote, Arcadia needs to enable: net, lan."
    );
}
