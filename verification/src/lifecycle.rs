//! The phased command lifecycle: hook phases and the setup / steps /
//! teardown validation pipeline.  The driver spawns each command and hands
//! back one event per attempted step; which steps run, which failures are
//! tolerated, and which error the whole operation reports are decided and
//! verified here.
use crate::command::{classify_outcome, spec_classify, ExecEvent, StepError};
use crate::config::{ValidationConfig, ValidationStep};
use vstd::prelude::*;

verus! {

/// The failure a fail-fast phase (hooks, setup, steps) reports: the first
/// step whose classification is an error and whose `ignore_errors` is not
/// set.  Steps after it do not run.
pub open spec fn spec_phase_failure(steps: Seq<ValidationStep>, events: Seq<ExecEvent>) -> Option<
    StepError,
>
    decreases steps.len(),
{
    if steps.len() == 0 || events.len() == 0 {
        None
    } else {
        match spec_classify(steps[0], events[0]) {
            Ok(_) => spec_phase_failure(steps.drop_first(), events.drop_first()),
            Err(e) => if steps[0].ignore_errors {
                spec_phase_failure(steps.drop_first(), events.drop_first())
            } else {
                Some(e)
            },
        }
    }
}

/// How many steps of a fail-fast phase run: all of them up to and
/// including the first non-ignored failure.
pub open spec fn spec_phase_executed(steps: Seq<ValidationStep>, events: Seq<ExecEvent>) -> int
    decreases steps.len(),
{
    if steps.len() == 0 || events.len() == 0 {
        0
    } else {
        match spec_classify(steps[0], events[0]) {
            Ok(_) => 1 + spec_phase_executed(steps.drop_first(), events.drop_first()),
            Err(e) => if steps[0].ignore_errors {
                1 + spec_phase_executed(steps.drop_first(), events.drop_first())
            } else {
                1
            },
        }
    }
}

/// A failing step whose `ignore_errors` is set does not abort its phase:
/// the steps after it still run, and they alone decide the phase's result.
pub proof fn lemma_ignored_failure_continues(steps: Seq<ValidationStep>, events: Seq<ExecEvent>)
    requires
        steps.len() > 0,
        events.len() > 0,
        steps[0].ignore_errors,
    ensures
        spec_phase_failure(steps, events) == spec_phase_failure(
            steps.drop_first(),
            events.drop_first(),
        ),
        spec_phase_executed(steps, events) == 1 + spec_phase_executed(
            steps.drop_first(),
            events.drop_first(),
        ),
{
}

/// Run one fail-fast phase over the events the driver collected, one per
/// attempted step: stop at the first non-ignored failure and report it.
#[verifier::loop_isolation(false)]
pub fn run_hooks(hooks: &Vec<ValidationStep>, events: Vec<ExecEvent>) -> (r: Result<
    (),
    StepError,
>)
    requires
        events@.len() == hooks@.len(),
    ensures
        match r {
            Ok(_) => spec_phase_failure(hooks@, events@) is None,
            Err(e) => spec_phase_failure(hooks@, events@) == Some(e),
        },
{
    let ghost orig = events@;
    let mut events = events;
    let n = hooks.len();
    proof {
        assert(hooks@.skip(0) =~= hooks@);
        assert(orig.skip(0) =~= orig);
    }
    let mut i: usize = 0;
    while i < n
        invariant
            n == hooks@.len(),
            orig.len() == n,
            i <= n,
            events@ == orig.skip(i as int),
            spec_phase_failure(hooks@, orig) == spec_phase_failure(
                hooks@.skip(i as int),
                orig.skip(i as int),
            ),
        decreases n - i,
    {
        proof {
            assert(hooks@.skip(i as int).drop_first() =~= hooks@.skip(i + 1));
            assert(orig.skip(i as int).drop_first() =~= orig.skip(i + 1));
            assert(hooks@.skip(i as int)[0] == hooks@[i as int]);
            assert(orig.skip(i as int)[0] == orig[i as int]);
        }
        let ev = events.remove(0);
        proof {
            assert(events@ =~= orig.skip(i + 1));
        }
        match classify_outcome(&hooks[i], ev) {
            Ok(_) => {},
            Err(e) => {
                if !hooks[i].ignore_errors {
                    return Err(e);
                }
            },
        }
        i = i + 1;
    }
    proof {
        assert(hooks@.skip(n as int) =~= Seq::<ValidationStep>::empty());
    }
    Ok(())
}

/// Whether one teardown step runs: always when `always_run` is set,
/// otherwise only when the steps phase succeeded.
pub open spec fn spec_teardown_runs(step: ValidationStep, steps_ok: bool) -> bool {
    step.always_run || steps_ok
}

/// The failure the teardown phase retains: the first non-ignored failure
/// among the teardown steps that run.  A failure does not stop the steps
/// after it.
pub open spec fn spec_teardown_failure(
    steps: Seq<ValidationStep>,
    events: Seq<ExecEvent>,
    steps_ok: bool,
) -> Option<StepError>
    decreases steps.len(),
{
    if steps.len() == 0 || events.len() == 0 {
        None
    } else {
        let rest = spec_teardown_failure(steps.drop_first(), events.drop_first(), steps_ok);
        if spec_teardown_runs(steps[0], steps_ok) {
            match spec_classify(steps[0], events[0]) {
                Ok(_) => rest,
                Err(e) => if steps[0].ignore_errors {
                    rest
                } else {
                    Some(e)
                },
            }
        } else {
            rest
        }
    }
}

/// Run the teardown phase: attempt every step the policy admits, keep only
/// the first non-ignored failure.  The event of a skipped step is not
/// looked at.
#[verifier::loop_isolation(false)]
pub fn run_teardown(steps: &Vec<ValidationStep>, events: Vec<ExecEvent>, steps_ok: bool) -> (r:
    Option<StepError>)
    requires
        events@.len() == steps@.len(),
    ensures
        r == spec_teardown_failure(steps@, events@, steps_ok),
{
    let ghost orig = events@;
    let mut events = events;
    let n = steps.len();
    proof {
        assert(steps@.skip(0) =~= steps@);
        assert(orig.skip(0) =~= orig);
    }
    let mut first: Option<StepError> = None;
    let mut i: usize = 0;
    while i < n
        invariant
            n == steps@.len(),
            orig.len() == n,
            i <= n,
            events@ == orig.skip(i as int),
            spec_teardown_failure(steps@, orig, steps_ok) == match first {
                Some(e) => Some(e),
                None => spec_teardown_failure(steps@.skip(i as int), orig.skip(i as int), steps_ok),
            },
        decreases n - i,
    {
        proof {
            assert(steps@.skip(i as int).drop_first() =~= steps@.skip(i + 1));
            assert(orig.skip(i as int).drop_first() =~= orig.skip(i + 1));
            assert(steps@.skip(i as int)[0] == steps@[i as int]);
            assert(orig.skip(i as int)[0] == orig[i as int]);
        }
        let ev = events.remove(0);
        proof {
            assert(events@ =~= orig.skip(i + 1));
        }
        if steps[i].always_run || steps_ok {
            match classify_outcome(&steps[i], ev) {
                Ok(_) => {},
                Err(e) => {
                    if !steps[i].ignore_errors {
                        if first.is_none() {
                            first = Some(e);
                        }
                    }
                },
            }
        }
        i = i + 1;
    }
    proof {
        assert(steps@.skip(n as int) =~= Seq::<ValidationStep>::empty());
    }
    first
}

/// The reported result prefers a setup or steps failure to a teardown
/// failure.
pub open spec fn spec_combined(primary: Option<StepError>, teardown: Option<StepError>) -> Option<
    StepError,
> {
    if primary is Some {
        primary
    } else {
        teardown
    }
}

/// The result of the whole validation lifecycle: a setup failure alone (no
/// later phase runs); otherwise the steps failure, with teardown swept
/// under the `always_run` policy; a teardown failure is reported only when
/// setup and steps succeeded.
pub open spec fn spec_lifecycle(
    setup: Seq<ValidationStep>,
    steps: Seq<ValidationStep>,
    teardown: Seq<ValidationStep>,
    setup_events: Seq<ExecEvent>,
    step_events: Seq<ExecEvent>,
    teardown_events: Seq<ExecEvent>,
) -> Option<StepError> {
    let setup_fail = spec_phase_failure(setup, setup_events);
    if setup_fail is Some {
        setup_fail
    } else {
        let steps_fail = spec_phase_failure(steps, step_events);
        spec_combined(
            steps_fail,
            spec_teardown_failure(teardown, teardown_events, steps_fail is None),
        )
    }
}

/// A steps failure with an always-run teardown step: that teardown step
/// still runs, and the reported error is the steps failure, not any
/// teardown outcome.
pub proof fn lemma_steps_failure_priority(
    setup: Seq<ValidationStep>,
    steps: Seq<ValidationStep>,
    teardown: Seq<ValidationStep>,
    setup_events: Seq<ExecEvent>,
    step_events: Seq<ExecEvent>,
    teardown_events: Seq<ExecEvent>,
    e: StepError,
    k: int,
)
    requires
        spec_phase_failure(setup, setup_events) is None,
        spec_phase_failure(steps, step_events) == Some(e),
        0 <= k < teardown.len(),
        teardown[k].always_run,
    ensures
        spec_teardown_runs(teardown[k], false),
        spec_lifecycle(setup, steps, teardown, setup_events, step_events, teardown_events)
            == Some(e),
{
}

/// Run the three phases of the validation lifecycle over the events the
/// driver collected.
pub fn run_validation_lifecycle(
    config: &ValidationConfig,
    setup_events: Vec<ExecEvent>,
    step_events: Vec<ExecEvent>,
    teardown_events: Vec<ExecEvent>,
) -> (r: Result<(), StepError>)
    requires
        setup_events@.len() == config.setup@.len(),
        step_events@.len() == config.steps@.len(),
        teardown_events@.len() == config.teardown@.len(),
    ensures
        match r {
            Ok(_) => spec_lifecycle(
                config.setup@,
                config.steps@,
                config.teardown@,
                setup_events@,
                step_events@,
                teardown_events@,
            ) is None,
            Err(e) => spec_lifecycle(
                config.setup@,
                config.steps@,
                config.teardown@,
                setup_events@,
                step_events@,
                teardown_events@,
            ) == Some(e),
        },
{
    match run_hooks(&config.setup, setup_events) {
        Err(e) => {
            return Err(e);
        },
        Ok(_) => {},
    }
    let steps_result = run_hooks(&config.steps, step_events);
    let steps_ok = steps_result.is_ok();
    let teardown_failure = run_teardown(&config.teardown, teardown_events, steps_ok);
    match steps_result {
        Err(e) => Err(e),
        Ok(_) => match teardown_failure {
            Some(e) => Err(e),
            None => Ok(()),
        },
    }
}

} // verus!
