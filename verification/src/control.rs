//! The retry / threshold controller's policy, decoupled from the terminal
//! loop that executes it.
//!
//! The loop around a target string is driven by `controller_step`: feed it
//! what the last session ended in, and it decides whether to abort the whole
//! run, report and stop, or report and rerun the very same target text.

use vstd::prelude::*;

use crate::session::TestResult;

verus! {

/// Resolved configuration: which minimums gate a retry, both in hundredths
/// (a minimum of 40 words per minute is 4000; a minimum of 70% is 7000).
pub struct Config {
    pub min_wpm_centi: Option<u128>,
    pub min_accuracy_centi: Option<u128>,
}

impl Config {
    /// A set speed minimum is positive; a set accuracy minimum is a
    /// percentage.
    pub open spec fn wf(self) -> bool {
        &&& self.min_wpm_centi matches Some(w) ==> w > 0
        &&& self.min_accuracy_centi matches Some(a) ==> a <= 10_000
    }
}

/// Whether a completed run clears both configured minimums; an unset minimum
/// is trivially satisfied.
pub open spec fn passes_spec(r: TestResult, c: Config) -> bool {
    &&& (c.min_wpm_centi matches Some(w) ==> r.wpm_centi_spec() >= w)
    &&& (c.min_accuracy_centi matches Some(a) ==> r.accuracy_centi_spec() >= a)
}

/// The verdict of one threshold check.
pub enum Verdict {
    Passed,
    Retry,
}

/// Threshold gating: `Retry` exactly when a set minimum was missed.
pub fn evaluate(r: &TestResult, c: &Config) -> (v: Verdict)
    requires
        r.wf(),
    ensures
        v == (if passes_spec(*r, *c) {
            Verdict::Passed
        } else {
            Verdict::Retry
        }),
{
    let wpm = r.wpm_centi();
    let acc = r.accuracy_centi();
    let wpm_missed = match c.min_wpm_centi {
        Some(w) => wpm < w,
        None => false,
    };
    let acc_missed = match c.min_accuracy_centi {
        Some(a) => acc < a,
        None => false,
    };
    if wpm_missed || acc_missed {
        Verdict::Retry
    } else {
        Verdict::Passed
    }
}

/// How one session of a controller run ended.
pub enum SessionOutcome {
    /// The target was typed to the end and sealed into a record.
    Completed(TestResult),
    /// The user abandoned the session.
    Cancelled,
}

/// What the controller does after one session.
pub enum ControlDecision {
    /// Abandon the whole run at once: no metrics exist to report.
    Abort,
    /// Report this record's metrics; the run is over.
    Finish(TestResult),
    /// Report this record's metrics, then run its unchanged target text
    /// again.
    Rerun(TestResult),
}

/// One controller transition. Cancellation aborts the entire run — nothing
/// is retried and no metrics are reported; a completed session is always
/// reported, and is final exactly when it clears both minimums.
pub fn controller_step(c: &Config, outcome: SessionOutcome) -> (d: ControlDecision)
    requires
        outcome matches SessionOutcome::Completed(r) ==> r.wf(),
    ensures
        match outcome {
            SessionOutcome::Cancelled => d == (ControlDecision::Abort),
            SessionOutcome::Completed(r) => d == (if passes_spec(r, *c) {
                ControlDecision::Finish(r)
            } else {
                ControlDecision::Rerun(r)
            }),
        },
{
    match outcome {
        SessionOutcome::Cancelled => ControlDecision::Abort,
        SessionOutcome::Completed(r) => {
            match evaluate(&r, c) {
                Verdict::Passed => ControlDecision::Finish(r),
                Verdict::Retry => ControlDecision::Rerun(r),
            }
        },
    }
}

} // verus!
