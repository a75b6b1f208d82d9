//! Command outcomes: what a spawned step reported back, and its
//! classification into success or one of the distinct error kinds.  The
//! spawning itself, the draining of the two streams, and the kill on
//! timeout are the driver's part; every decision about the result is made
//! and verified here.
use crate::config::ValidationStep;
use vstd::prelude::*;
use vstd::string::StrSliceExecFns;

verus! {

/// How a finished process ended.
#[derive(Clone, Copy, PartialEq, Eq, Structural, Debug)]
pub enum ExitStatus {
    Exited(i32),
    Signaled(i32),
}

/// A process succeeded when it exited with code zero.
pub open spec fn exit_success(s: ExitStatus) -> bool {
    s == ExitStatus::Exited(0i32)
}

/// What one command invocation produced: exit status and the two captured
/// streams, drained concurrently by the driver.
#[derive(Debug)]
pub struct ExecutionOutcome {
    pub status: ExitStatus,
    pub stdout: Vec<u8>,
    pub stderr: Vec<u8>,
}

/// What the driver reports for one attempted command: a completed process,
/// a spawn or wait failure, or a timeout after which the process was
/// killed.
#[derive(Debug)]
pub enum ExecEvent {
    Completed(ExecutionOutcome),
    ExecError(String),
    TimedOut,
}

/// The error kinds a step can fail with, each carrying the step's name.
/// A shell that exits with status 127 did not find the command: that is a
/// spawn-kind failure of its own, apart from an ordinary bad exit.
#[derive(Debug)]
pub enum StepError {
    ExecError { step_name: String, message: String },
    CommandNotFound { step_name: String },
    FailedStatus { step_name: String, status: ExitStatus, stdout: Vec<u8>, stderr: Vec<u8> },
    StderrNotEmpty { step_name: String, stdout: Vec<u8>, stderr: Vec<u8> },
    Timeout { step_name: String },
}

/// Classification of one event: a completed process succeeds exactly when
/// its exit status is success and, under `check_stderr`, its stderr is
/// empty; a spawn or wait failure and a timeout are distinct errors.
/// Tolerating an error (`ignore_errors`) is the orchestrator's decision,
/// not made here.
pub open spec fn spec_classify(step: ValidationStep, event: ExecEvent) -> Result<
    ExecutionOutcome,
    StepError,
> {
    match event {
        ExecEvent::Completed(o) => if o.status == ExitStatus::Exited(127i32) {
            Err(StepError::CommandNotFound { step_name: step.name })
        } else if !exit_success(o.status) {
            Err(
                StepError::FailedStatus {
                    step_name: step.name,
                    status: o.status,
                    stdout: o.stdout,
                    stderr: o.stderr,
                },
            )
        } else if step.check_stderr && o.stderr@.len() != 0 {
            Err(
                StepError::StderrNotEmpty {
                    step_name: step.name,
                    stdout: o.stdout,
                    stderr: o.stderr,
                },
            )
        } else {
            Ok(o)
        },
        ExecEvent::ExecError(message) => Err(
            StepError::ExecError { step_name: step.name, message },
        ),
        ExecEvent::TimedOut => Err(StepError::Timeout { step_name: step.name }),
    }
}

/// Classify what came back for one step.
pub fn classify_outcome(step: &ValidationStep, event: ExecEvent) -> (r: Result<
    ExecutionOutcome,
    StepError,
>)
    ensures
        r == spec_classify(*step, event),
{
    match event {
        ExecEvent::Completed(o) => {
            let not_found = match o.status {
                ExitStatus::Exited(code) => code == 127,
                ExitStatus::Signaled(_) => false,
            };
            if not_found {
                return Err(StepError::CommandNotFound { step_name: step.name.clone() });
            }
            let ok = match o.status {
                ExitStatus::Exited(code) => code == 0,
                ExitStatus::Signaled(_) => false,
            };
            if !ok {
                Err(
                    StepError::FailedStatus {
                        step_name: step.name.clone(),
                        status: o.status,
                        stdout: o.stdout,
                        stderr: o.stderr,
                    },
                )
            } else if step.check_stderr && o.stderr.len() != 0 {
                Err(
                    StepError::StderrNotEmpty {
                        step_name: step.name.clone(),
                        stdout: o.stdout,
                        stderr: o.stderr,
                    },
                )
            } else {
                Ok(o)
            }
        },
        ExecEvent::ExecError(message) => Err(
            StepError::ExecError { step_name: step.name.clone(), message },
        ),
        ExecEvent::TimedOut => Err(StepError::Timeout { step_name: step.name.clone() }),
    }
}

/// Whether a configured timeout has elapsed after the given wait.
pub fn timeout_elapsed(elapsed_ms: u64, timeout_secs: u64) -> (r: bool)
    ensures
        r == (elapsed_ms >= timeout_secs * 1000),
{
    elapsed_ms as u128 >= timeout_secs as u128 * 1000
}

/// Where a hook step runs: its own directory joined to the phase default,
/// or the default alone.  A leading slash makes the step's directory
/// absolute and it stands by itself.
pub open spec fn spec_joined_path(base: Seq<char>, rel: Seq<char>) -> Seq<char> {
    if rel.len() > 0 && rel[0] == '/' {
        rel
    } else {
        base + seq!['/'] + rel
    }
}

/// Join a step's relative directory to a base directory.
pub fn join_path(base: &String, rel: &String) -> (r: String)
    ensures
        r@ == spec_joined_path(base@, rel@),
{
    let rs = rel.as_str();
    if rs.unicode_len() > 0 && rs.get_char(0) == '/' {
        return rel.clone();
    }
    let mut out = base.clone();
    out.append("/");
    out.append(rel.as_str());
    proof {
        reveal_strlit("/");
        assert("/"@ =~= seq!['/']);
    }
    out
}

/// The directory a hook step runs in: the step's directory joined to the
/// phase default when declared, the phase default otherwise.
pub fn resolve_hook_dir(default_dir: &String, working_dir: &Option<String>) -> (r: String)
    ensures
        r@ == match working_dir {
            Some(wd) => spec_joined_path(default_dir@, wd@),
            None => default_dir@,
        },
{
    match working_dir {
        Some(wd) => join_path(default_dir, wd),
        None => default_dir.clone(),
    }
}

/// The directory a validation step runs in: a declared directory always
/// resolves against the scratch directory, whatever the phase default is.
pub fn resolve_validation_dir(
    default_dir: &String,
    scratch_dir: &String,
    working_dir: &Option<String>,
) -> (r: String)
    ensures
        r@ == match working_dir {
            Some(wd) => spec_joined_path(scratch_dir@, wd@),
            None => default_dir@,
        },
{
    match working_dir {
        Some(wd) => join_path(scratch_dir, wd),
        None => default_dir.clone(),
    }
}

} // verus!
