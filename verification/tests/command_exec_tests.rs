use spawnpoint::command::{
    classify_outcome, timeout_elapsed, ExecEvent, ExecutionOutcome, ExitStatus, StepError,
};
use spawnpoint::config::ValidationStep;
use spawnpoint::subst::substitute_command_for_validation;
use spawnpoint::varmap::VarMap;
use std::time::{Duration, Instant};

fn s(x: &str) -> String {
    x.to_string()
}

fn step_with_timeout(name: &str, command: &str, timeout_secs: Option<u64>) -> ValidationStep {
    ValidationStep {
        name: s(name),
        command: s(command),
        working_dir: None,
        env: vec![],
        timeout_secs,
        ignore_errors: false,
        always_run: false,
        check_stderr: false,
    }
}

/// The driver loop an application runs around the library: spawn through a
/// shell, poll for completion, kill on an elapsed timeout, and hand the
/// event back for classification.
fn execute(step: &ValidationStep, vars: &VarMap) -> ExecEvent {
    let shell_command = substitute_command_for_validation(&step.command, vars);
    let expr = duct::cmd("sh", ["-c", shell_command.as_str()])
        .stdout_capture()
        .stderr_capture()
        .unchecked();
    let handle = match expr.start() {
        Ok(h) => h,
        Err(e) => return ExecEvent::ExecError(e.to_string()),
    };
    match step.timeout_secs {
        None => match handle.wait() {
            Ok(o) => {
                let status = match o.status.code() {
                    Some(c) => ExitStatus::Exited(c),
                    None => ExitStatus::Signaled(-1),
                };
                ExecEvent::Completed(ExecutionOutcome {
                    status,
                    stdout: o.stdout.clone(),
                    stderr: o.stderr.clone(),
                })
            }
            Err(e) => ExecEvent::ExecError(e.to_string()),
        },
        Some(secs) => {
            let start = Instant::now();
            loop {
                match handle.wait_timeout(Duration::from_millis(50)) {
                    Ok(Some(o)) => {
                        let status = match o.status.code() {
                            Some(c) => ExitStatus::Exited(c),
                            None => ExitStatus::Signaled(-1),
                        };
                        return ExecEvent::Completed(ExecutionOutcome {
                            status,
                            stdout: o.stdout.clone(),
                            stderr: o.stderr.clone(),
                        });
                    }
                    Ok(None) => {
                        let elapsed_ms = start.elapsed().as_millis() as u64;
                        if timeout_elapsed(elapsed_ms, secs) {
                            let _ = handle.kill();
                            return ExecEvent::TimedOut;
                        }
                    }
                    Err(e) => return ExecEvent::ExecError(e.to_string()),
                }
            }
        }
    }
}

#[test]
fn sleeping_command_times_out_and_is_terminated() {
    let step = step_with_timeout("slow", "sleep 5", Some(1));
    let vars = VarMap::new();
    let started = Instant::now();
    let event = execute(&step, &vars);
    assert!(matches!(event, ExecEvent::TimedOut));
    // the kill took effect: the driver returned long before the sleep ends
    assert!(started.elapsed() < Duration::from_secs(4));
    let r = classify_outcome(&step, event);
    assert!(matches!(r, Err(StepError::Timeout { .. })));
}

#[test]
fn short_command_within_timeout_succeeds() {
    let step = step_with_timeout("quick", "sleep 1", Some(5));
    let vars = VarMap::new();
    let event = execute(&step, &vars);
    let r = classify_outcome(&step, event);
    match r {
        Ok(outcome) => assert_eq!(outcome.status, ExitStatus::Exited(0)),
        Err(_) => panic!("the command should finish within its timeout"),
    }
}

#[test]
fn captured_output_and_substituted_command() {
    let mut vars = VarMap::new();
    vars.set(&s("word"), s("hello"));
    let step = step_with_timeout("echo", "echo {{word}}", None);
    let event = execute(&step, &vars);
    match classify_outcome(&step, event) {
        Ok(outcome) => {
            assert_eq!(outcome.status, ExitStatus::Exited(0));
            assert_eq!(outcome.stdout, b"hello\n".to_vec());
        }
        Err(_) => panic!("echo should succeed"),
    }
}

#[test]
fn missing_command_is_reported_not_successful() {
    let step = step_with_timeout("ghost", "nonexistent-command-zz 2>/dev/null", None);
    let vars = VarMap::new();
    let event = execute(&step, &vars);
    let r = classify_outcome(&step, event);
    assert!(r.is_err());
}

#[test]
fn it_works() {
    // Basic test placeholder
    assert_eq!(2 + 2, 4);
}
