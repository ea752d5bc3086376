use arcadia::cli::{plan_command, CommandPlan};
use arcadia::completion::hint;
use arcadia::modules::{handle_module, ModuleRequest};
use arcadia::session::module_command;
use arcadia::lan::{kill_outcome, lsof_outcome};
use arcadia::shell::{shell_run_plan, ShellMode, ShellRun};

#[test]
fn shell_runs() {
    assert!(matches!(shell_run_plan(" Clear ", ShellMode::Generic), ShellRun::Clear));
    assert!(matches!(shell_run_plan("CLS", ShellMode::Internal), ShellRun::Clear));
    match shell_run_plan("  ls -la ", ShellMode::Generic) {
        ShellRun::Terminal(c) => assert_eq!(c, "ls -la"),
        _ => panic!(),
    }
    match shell_run_plan(" help ", ShellMode::Internal) {
        ShellRun::Internal { token, command } => {
            assert_eq!(token, "shell.internal");
            assert_eq!(command, " help ");
        }
        _ => panic!(),
    }
}

#[test]
fn port_owner_flow() {
    assert_eq!(lsof_outcome(false, "", 43210, 1).err().unwrap(), "No process currently owns UDP 43210.");
    assert_eq!(lsof_outcome(false, "77\n", 43210, 1).unwrap(), vec![77]);
    assert_eq!(lsof_outcome(true, "", 43210, 1).unwrap(), Vec::<u32>::new());
    assert!(kill_outcome(true, 9).is_ok());
    assert_eq!(kill_outcome(false, 9).err().unwrap(), "No existing Arcadia process found owning UDP 9.");
}

#[test]
fn hint_is_rest_of_a_candidate() {
    let cands = vec!["module".to_string(), "modules.shell".to_string()];
    let line = "configuration get modules.s";
    let h = hint(line, line.len(), 18, &cands).unwrap();
    assert_eq!(h, "hell");
    assert!(cands.contains(&format!("{}{}", &line[18..], h)));
}

fn read_back(name: &str, enable: bool, with_requirements: bool) -> (String, bool, bool) {
    let line = module_command(name, enable, with_requirements);
    match plan_command(&line) {
        CommandPlan::Module(p) => {
            let words: Vec<&str> = p.iter().map(|w| w.as_str()).collect();
            match handle_module(&words) {
                ModuleRequest::SetState { name, enabled, with_requirements } => {
                    (name, enabled, with_requirements)
                }
                _ => panic!(),
            }
        }
        _ => panic!(),
    }
}

#[test]
fn module_switch_lines_read_back() {
    assert_eq!(read_back("lan", true, true), ("lan".to_string(), true, true));
    assert_eq!(read_back("shell", true, false), ("shell".to_string(), true, false));
    assert_eq!(read_back("late", false, false), ("late".to_string(), false, false));
    assert_eq!(read_back("late", false, true), ("late".to_string(), false, false));
}
