//! Source builds: steps run in order, the first failure aborts the build
//! before any executable is copied, and the failure carries the step's
//! captured output.

use leaf::builder::{build_copy_list, select_source_root, BuildSession, StepResult};
use leaf::error::LeafError;
use leaf::package::ExecutableInfo;

fn ok_step() -> StepResult {
    StepResult { success: true, exit_status: 0, stdout: String::new(), stderr: String::new() }
}

fn failed_step(code: i32, stderr: &str) -> StepResult {
    StepResult {
        success: false,
        exit_status: code,
        stdout: "partial output".to_string(),
        stderr: stderr.to_string(),
    }
}

fn commands(cmds: &[&str]) -> Vec<String> {
    cmds.iter().map(|c| c.to_string()).collect()
}

#[test]
fn empty_build_commands_are_refused() {
    let err = BuildSession::start(Vec::new(), "mytool").unwrap_err();
    assert_eq!(err, LeafError::NoBuildCommands("mytool".to_string()));
}

#[test]
fn steps_run_in_declared_order() {
    let mut s = BuildSession::start(commands(&["./configure", "make", "make install"]), "t")
        .unwrap();
    assert_eq!(s.current_command().unwrap().as_str(), "./configure");
    s.on_step_result(ok_step());
    assert_eq!(s.current_command().unwrap().as_str(), "make");
    s.on_step_result(ok_step());
    assert_eq!(s.current_command().unwrap().as_str(), "make install");
    s.on_step_result(ok_step());
    assert!(s.current_command().is_none());
    assert!(s.is_complete());
    assert!(s.failure().is_none());
}

#[test]
fn failing_step_two_of_three_aborts_without_copies() {
    let mut s = BuildSession::start(commands(&["step one", "step two", "step three"]), "t")
        .unwrap();
    s.on_step_result(ok_step());
    assert_eq!(s.steps_done(), 1);
    s.on_step_result(failed_step(2, "compile error: boom"));

    // Step three never runs and the build never completes.
    assert!(s.current_command().is_none());
    assert!(!s.is_complete());
    assert_eq!(s.steps_done(), 1);

    // The failure names the offending command and carries its stderr.
    match s.failure().unwrap() {
        LeafError::BuildCommandFailed { command, exit_status, stdout, stderr } => {
            assert_eq!(command.as_str(), "step two");
            assert_eq!(*exit_status, 2);
            assert_eq!(stdout.as_str(), "partial output");
            assert_eq!(stderr.as_str(), "compile error: boom");
        }
        other => panic!("unexpected failure: {:?}", other),
    }
}

#[test]
fn failing_first_step_aborts_immediately() {
    let mut s = BuildSession::start(commands(&["make"]), "t").unwrap();
    s.on_step_result(failed_step(1, "no such file"));
    assert!(!s.is_complete());
    assert_eq!(s.steps_done(), 0);
    assert!(s.current_command().is_none());
}

#[test]
fn completed_build_copies_each_declared_executable() {
    let mut s = BuildSession::start(commands(&["make"]), "t").unwrap();
    s.on_step_result(ok_step());
    assert!(s.is_complete());
    let execs = vec![
        ExecutableInfo { path: "bin/tool".to_string(), name: None },
        ExecutableInfo { path: "helper".to_string(), name: Some("h".to_string()) },
    ];
    let copies = build_copy_list("/tmp/src-root", "/pkgs/tool", &execs, &s);
    assert_eq!(copies.len(), 2);
    assert_eq!(copies[0].source, "/tmp/src-root/bin/tool");
    assert_eq!(copies[0].dest, "/pkgs/tool/bin/tool");
    assert_eq!(copies[1].source, "/tmp/src-root/helper");
    assert_eq!(copies[1].dest, "/pkgs/tool/helper");
}

#[test]
fn single_subdirectory_becomes_source_root() {
    let one = vec!["/scratch/tool-1.2".to_string()];
    assert_eq!(select_source_root(&one, "/scratch"), "/scratch/tool-1.2");
}

#[test]
fn zero_or_many_subdirectories_keep_the_scratch_root() {
    let none: Vec<String> = Vec::new();
    assert_eq!(select_source_root(&none, "/scratch"), "/scratch");
    let two = vec!["/scratch/a".to_string(), "/scratch/b".to_string()];
    assert_eq!(select_source_root(&two, "/scratch"), "/scratch");
}
