use spawnpoint::command::{
    classify_outcome, join_path, resolve_hook_dir, resolve_validation_dir, ExecEvent,
    ExecutionOutcome, ExitStatus, StepError,
};
use spawnpoint::config::{ValidationConfig, ValidationStep};
use spawnpoint::lifecycle::{run_hooks, run_teardown, run_validation_lifecycle};
use spawnpoint::varmap::VarMap;

fn s(x: &str) -> String {
    x.to_string()
}

fn step(name: &str) -> ValidationStep {
    ValidationStep {
        name: s(name),
        command: s("true"),
        working_dir: None,
        env: vec![],
        timeout_secs: None,
        ignore_errors: false,
        always_run: false,
        check_stderr: false,
    }
}

fn done(code: i32, stdout: &str, stderr: &str) -> ExecEvent {
    ExecEvent::Completed(ExecutionOutcome {
        status: ExitStatus::Exited(code),
        stdout: stdout.as_bytes().to_vec(),
        stderr: stderr.as_bytes().to_vec(),
    })
}

fn error_name(e: &StepError) -> String {
    match e {
        StepError::ExecError { step_name, .. } => step_name.clone(),
        StepError::CommandNotFound { step_name } => step_name.clone(),
        StepError::FailedStatus { step_name, .. } => step_name.clone(),
        StepError::StderrNotEmpty { step_name, .. } => step_name.clone(),
        StepError::Timeout { step_name } => step_name.clone(),
    }
}

#[test]
fn zero_exit_is_success() {
    let r = classify_outcome(&step("ok"), done(0, "out", ""));
    assert!(r.is_ok());
}

#[test]
fn nonzero_exit_is_failed_status() {
    let r = classify_outcome(&step("bad"), done(2, "", "boom"));
    match r {
        Err(StepError::FailedStatus { step_name, status, stderr, .. }) => {
            assert_eq!(step_name, s("bad"));
            assert_eq!(status, ExitStatus::Exited(2));
            assert_eq!(stderr, b"boom".to_vec());
        }
        other => panic!("expected a failed status, got {:?}", other.is_ok()),
    }
}

#[test]
fn signal_exit_is_failed_status() {
    let ev = ExecEvent::Completed(ExecutionOutcome {
        status: ExitStatus::Signaled(9),
        stdout: vec![],
        stderr: vec![],
    });
    assert!(matches!(classify_outcome(&step("sig"), ev), Err(StepError::FailedStatus { .. })));
}

#[test]
fn stderr_policy_violation() {
    let mut st = step("noisy");
    st.check_stderr = true;
    let r = classify_outcome(&st, done(0, "", "warning"));
    assert!(matches!(r, Err(StepError::StderrNotEmpty { .. })));
    let quiet = classify_outcome(&st, done(0, "all good", ""));
    assert!(quiet.is_ok());
}

#[test]
fn stderr_without_check_is_fine() {
    let r = classify_outcome(&step("plain"), done(0, "", "warning"));
    assert!(r.is_ok());
}

#[test]
fn spawn_failure_is_exec_error() {
    let r = classify_outcome(&step("ghost"), ExecEvent::ExecError(s("command not found")));
    match r {
        Err(StepError::ExecError { step_name, message }) => {
            assert_eq!(step_name, s("ghost"));
            assert_eq!(message, s("command not found"));
        }
        _ => panic!("expected an exec error"),
    }
}

#[test]
fn exit_code_127_is_command_not_found() {
    let r = classify_outcome(&step("ghost"), done(127, "", ""));
    assert!(matches!(r, Err(StepError::CommandNotFound { .. })));
}

#[test]
fn timeout_event_is_timeout_error() {
    let r = classify_outcome(&step("slow"), ExecEvent::TimedOut);
    assert!(matches!(r, Err(StepError::Timeout { .. })));
}

#[test]
fn phase_stops_at_first_hard_failure() {
    let hooks = vec![step("first"), step("second"), step("third")];
    let events = vec![done(0, "", ""), done(1, "", ""), done(0, "", "")];
    match run_hooks(&hooks, events) {
        Err(e) => assert_eq!(error_name(&e), s("second")),
        Ok(_) => panic!("phase should fail"),
    }
}

#[test]
fn ignored_failure_does_not_abort_phase() {
    let mut tolerant = step("tolerant");
    tolerant.ignore_errors = true;
    let hooks = vec![tolerant, step("after")];
    let events = vec![done(1, "", ""), done(0, "", "")];
    assert!(run_hooks(&hooks, events).is_ok());
}

#[test]
fn step_after_ignored_failure_still_decides_the_phase() {
    let mut tolerant = step("tolerant");
    tolerant.ignore_errors = true;
    let hooks = vec![tolerant, step("after")];
    let events = vec![done(1, "", ""), done(7, "", "")];
    match run_hooks(&hooks, events) {
        Err(e) => assert_eq!(error_name(&e), s("after")),
        Ok(_) => panic!("second step should fail the phase"),
    }
}

#[test]
fn teardown_always_run_step_runs_after_steps_failure() {
    let mut cleanup = step("cleanup");
    cleanup.always_run = true;
    let steps = vec![cleanup];
    let events = vec![done(4, "", "")];
    let retained = run_teardown(&steps, events, false);
    match retained {
        Some(e) => assert_eq!(error_name(&e), s("cleanup")),
        None => panic!("the always-run teardown step must have run and failed"),
    }
}

#[test]
fn teardown_step_without_always_run_is_skipped_after_failure() {
    let steps = vec![step("cleanup")];
    let events = vec![done(4, "", "")];
    assert!(run_teardown(&steps, events, false).is_none());
}

#[test]
fn teardown_failure_does_not_stop_later_steps_and_first_is_retained() {
    let steps = vec![step("one"), step("two")];
    let events = vec![done(1, "", ""), done(2, "", "")];
    let retained = run_teardown(&steps, events, true).expect("first failure retained");
    assert_eq!(error_name(&retained), s("one"));
}

#[test]
fn lifecycle_reports_steps_failure_over_teardown_failure() {
    let mut cleanup = step("cleanup");
    cleanup.always_run = true;
    let config = ValidationConfig {
        test_variables: VarMap::new(),
        setup: vec![step("setup")],
        steps: vec![step("check")],
        teardown: vec![cleanup],
    };
    let r = run_validation_lifecycle(
        &config,
        vec![done(0, "", "")],
        vec![done(3, "", "")],
        vec![done(5, "", "")],
    );
    match r {
        Err(e) => assert_eq!(error_name(&e), s("check")),
        Ok(_) => panic!("lifecycle should report the steps failure"),
    }
}

#[test]
fn lifecycle_reports_teardown_failure_when_steps_succeed() {
    let config = ValidationConfig {
        test_variables: VarMap::new(),
        setup: vec![],
        steps: vec![step("check")],
        teardown: vec![step("cleanup")],
    };
    let r = run_validation_lifecycle(&config, vec![], vec![done(0, "", "")], vec![done(5, "", "")]);
    match r {
        Err(e) => assert_eq!(error_name(&e), s("cleanup")),
        Ok(_) => panic!("lifecycle should report the teardown failure"),
    }
}

#[test]
fn lifecycle_setup_failure_wins() {
    let config = ValidationConfig {
        test_variables: VarMap::new(),
        setup: vec![step("prepare")],
        steps: vec![step("check")],
        teardown: vec![],
    };
    let r = run_validation_lifecycle(&config, vec![done(9, "", "")], vec![done(0, "", "")], vec![]);
    match r {
        Err(e) => assert_eq!(error_name(&e), s("prepare")),
        Ok(_) => panic!("lifecycle should report the setup failure"),
    }
}

#[test]
fn lifecycle_all_green() {
    let config = ValidationConfig {
        test_variables: VarMap::new(),
        setup: vec![step("prepare")],
        steps: vec![step("check")],
        teardown: vec![step("cleanup")],
    };
    let r = run_validation_lifecycle(
        &config,
        vec![done(0, "", "")],
        vec![done(0, "", "")],
        vec![done(0, "", "")],
    );
    assert!(r.is_ok());
}

#[test]
fn working_directory_resolution() {
    assert_eq!(join_path(&s("/base"), &s("sub/dir")), s("/base/sub/dir"));
    assert_eq!(join_path(&s("/base"), &s("/abs")), s("/abs"));
    assert_eq!(resolve_hook_dir(&s("/cwd"), &None), s("/cwd"));
    assert_eq!(resolve_hook_dir(&s("/cwd"), &Some(s("web"))), s("/cwd/web"));
    assert_eq!(resolve_validation_dir(&s("/cwd"), &s("/tmpx"), &None), s("/cwd"));
    assert_eq!(resolve_validation_dir(&s("/cwd"), &s("/tmpx"), &Some(s("web"))), s("/tmpx/web"));
}
