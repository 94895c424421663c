//! The test execution wrapper: setup, body, conditional teardown.
//!
//! Every test invocation follows one protocol. Setup runs first; if it
//! fails, the body never runs and the setup error is reported. After a
//! successful setup the body runs with the test-bound client. A body that
//! completed without signalling failure is followed by teardown, whose own
//! failure is reported as a distinct cleanup failure. A body that failed —
//! an error result or an abnormal termination, both arrive here as the same
//! failure outcome — skips teardown entirely and re-surfaces the original
//! failure, leaving the disposable database behind for inspection.

use vstd::prelude::*;
use crate::Error;

verus! {

/// What the test body signalled: unconditional success, or a failure with
/// its description. An abnormal termination is converted by the driver into
/// the same failure outcome as an ordinary returned error.
pub enum BodyOutcome {
    Success,
    Failure(String),
}

/// How one wrapped test invocation concluded.
pub enum Verdict {
    /// Body succeeded and its database was torn down.
    Passed,
    /// Setup failed; the body never ran.
    SetupFailed(String),
    /// The body failed; its failure is re-surfaced unchanged and its
    /// database survives.
    BodyFailed(String),
    /// The body passed but cleanup failed — reported distinctly, never
    /// confused with a body failure.
    CleanupFailed(String),
}

pub enum RunState {
    SettingUp,
    RunningBody,
    CleaningUp,
    Concluded,
}

pub enum RunEvent {
    SetupOk,
    SetupError(Error),
    BodyFinished(BodyOutcome),
    CleanupOk,
    CleanupError(Error),
}

pub enum RunAction {
    /// Invoke the test body with the test-bound client.
    RunBody,
    /// Run teardown against the client.
    RunTeardown,
    /// The invocation is over; report this verdict.
    Conclude(Verdict),
}

pub open spec fn run_event_fits(s: RunState, e: RunEvent) -> bool {
    match (s, e) {
        (RunState::SettingUp, RunEvent::SetupOk) => true,
        (RunState::SettingUp, RunEvent::SetupError(_)) => true,
        (RunState::RunningBody, RunEvent::BodyFinished(_)) => true,
        (RunState::CleaningUp, RunEvent::CleanupOk) => true,
        (RunState::CleaningUp, RunEvent::CleanupError(_)) => true,
        _ => false,
    }
}

pub open spec fn setup_failed_text(name: Seq<char>, err: Seq<char>) -> Seq<char> {
    "Failed to setup test "@ + name + " client: "@ + err
}

pub open spec fn body_failed_text(name: Seq<char>, err: Seq<char>) -> Seq<char> {
    "Test "@ + name + " failed: "@ + err
}

pub open spec fn cleanup_failed_text(name: Seq<char>, err: Seq<char>) -> Seq<char> {
    "Failed to cleanup test "@ + name + " data: "@ + err
}

fn compose_message(head: &str, name: &str, mid: &str, err: String) -> (r: String)
    ensures
        r@ == head@ + name@ + mid@ + err@,
{
    let mut s = String::from_str(head);
    s.append(name);
    s.append(mid);
    s.append(err.as_str());
    s
}

/// Begin a wrapped invocation: setup comes first.
pub fn run_start() -> (r: RunState)
    ensures
        r is SettingUp,
{
    RunState::SettingUp
}

/// One decision of the wrapper protocol. Besides the exact transitions,
/// one law stands on its own: a body that signalled failure never leads to
/// teardown, so its database is preserved.
pub fn run_step(s: RunState, test_name: &str, e: RunEvent) -> (r: (RunState, RunAction))
    requires
        run_event_fits(s, e),
    ensures
        match (s, e) {
            (RunState::SettingUp, RunEvent::SetupOk) => {
                &&& r.0 is RunningBody
                &&& r.1 is RunBody
            },
            (RunState::SettingUp, RunEvent::SetupError(err)) => {
                &&& r.0 is Concluded
                &&& (r.1 matches RunAction::Conclude(v) && (v matches Verdict::SetupFailed(msg)
                    && msg@ == setup_failed_text(test_name@, err.text())))
            },
            (RunState::RunningBody, RunEvent::BodyFinished(BodyOutcome::Success)) => {
                &&& r.0 is CleaningUp
                &&& r.1 is RunTeardown
            },
            (RunState::RunningBody, RunEvent::BodyFinished(BodyOutcome::Failure(m))) => {
                &&& r.0 is Concluded
                &&& (r.1 matches RunAction::Conclude(v) && (v matches Verdict::BodyFailed(msg)
                    && msg@ == body_failed_text(test_name@, m@)))
            },
            (RunState::CleaningUp, RunEvent::CleanupOk) => {
                &&& r.0 is Concluded
                &&& (r.1 matches RunAction::Conclude(v) && v is Passed)
            },
            (RunState::CleaningUp, RunEvent::CleanupError(err)) => {
                &&& r.0 is Concluded
                &&& (r.1 matches RunAction::Conclude(v) && (v matches Verdict::CleanupFailed(msg)
                    && msg@ == cleanup_failed_text(test_name@, err.text())))
            },
            _ => true,
        },
        (e matches RunEvent::BodyFinished(o) && o is Failure) ==> !(r.1 is RunTeardown),
{
    match (s, e) {
        (RunState::SettingUp, RunEvent::SetupOk) => (RunState::RunningBody, RunAction::RunBody),
        (RunState::SettingUp, RunEvent::SetupError(err)) => {
            let msg = compose_message(
                "Failed to setup test ",
                test_name,
                " client: ",
                err.into_text(),
            );
            (RunState::Concluded, RunAction::Conclude(Verdict::SetupFailed(msg)))
        },
        (RunState::RunningBody, RunEvent::BodyFinished(BodyOutcome::Success)) => {
            (RunState::CleaningUp, RunAction::RunTeardown)
        },
        (RunState::RunningBody, RunEvent::BodyFinished(BodyOutcome::Failure(m))) => {
            let msg = compose_message("Test ", test_name, " failed: ", m);
            (RunState::Concluded, RunAction::Conclude(Verdict::BodyFailed(msg)))
        },
        (RunState::CleaningUp, RunEvent::CleanupOk) => {
            (RunState::Concluded, RunAction::Conclude(Verdict::Passed))
        },
        (RunState::CleaningUp, RunEvent::CleanupError(err)) => {
            let msg = compose_message(
                "Failed to cleanup test ",
                test_name,
                " data: ",
                err.into_text(),
            );
            (RunState::Concluded, RunAction::Conclude(Verdict::CleanupFailed(msg)))
        },
        _ => {
            proof {
                assert(false);
            }
            (RunState::Concluded, RunAction::Conclude(Verdict::Passed))
        },
    }
}

} // verus!
