//! Derived metrics over a finalized session record.
//!
//! Speeds and accuracy are reported in hundredths (two decimal places): a
//! characters-per-minute of 123.45 is the integer 12345, an accuracy of
//! 98.76% is 9876. All divisions truncate; nothing is ever divided by zero.

use vstd::prelude::*;

use crate::session::TestResult;

verus! {

impl TestResult {
    /// Hundredths of characters per minute: every logged keystroke counts,
    /// over the elapsed milliseconds; zero when no time elapsed.
    pub open spec fn cpm_centi_spec(self) -> int {
        if self.elapsed_spec() == 0 {
            0
        } else {
            (self.keys@.len() as int * 6_000_000) / self.elapsed_spec()
        }
    }

    /// Hundredths of words per minute: a word is five characters.
    pub open spec fn wpm_centi_spec(self) -> int {
        self.cpm_centi_spec() / 5
    }

    /// Hundredths of a percent of advances that matched the target; zero when
    /// nothing was typed.
    pub open spec fn accuracy_centi_spec(self) -> int {
        if self.keys@.len() == 0 {
            0
        } else {
            (self.correct as int * 10_000) / self.keys@.len() as int
        }
    }

    /// Characters per minute, in hundredths.
    pub fn cpm_centi(&self) -> (r: u128)
        requires
            self.wf(),
        ensures
            r == self.cpm_centi_spec(),
            self.keys@.len() == 0 ==> r == 0,
    {
        let e = self.len();
        if e == 0 {
            0
        } else {
            let k = self.keys.len() as u128;
            (k * 6_000_000) / (e as u128)
        }
    }

    /// Words per minute, in hundredths.
    pub fn wpm_centi(&self) -> (r: u128)
        requires
            self.wf(),
        ensures
            r == self.wpm_centi_spec(),
            self.keys@.len() == 0 ==> r == 0,
    {
        self.cpm_centi() / 5
    }

    /// Accuracy as a percentage, in hundredths.
    pub fn accuracy_centi(&self) -> (r: u128)
        requires
            self.wf(),
        ensures
            r == self.accuracy_centi_spec(),
            self.keys@.len() == 0 ==> r == 0,
    {
        let k = self.keys.len();
        if k == 0 {
            0
        } else {
            ((self.correct as u128) * 10_000) / (k as u128)
        }
    }
}

/// With an empty keystroke log every metric is zero: no division by zero is
/// hidden in the definitions.
pub proof fn lemma_empty_log_metrics(r: TestResult)
    requires
        r.keys@.len() == 0,
    ensures
        r.elapsed_spec() == 0,
        r.cpm_centi_spec() == 0,
        r.wpm_centi_spec() == 0,
        r.accuracy_centi_spec() == 0,
{
}

/// The two counters partition the keystroke log: every logged keystroke was
/// judged exactly once, and corrections never take a judgement back.
pub proof fn lemma_counters_partition_log(r: TestResult)
    requires
        r.wf(),
    ensures
        r.correct + r.incorrect == r.keys@.len(),
{
}

/// Words-per-minute is always characters-per-minute divided by five.
pub proof fn lemma_wpm_is_cpm_over_five(r: TestResult)
    ensures
        r.wpm_centi_spec() == r.cpm_centi_spec() / 5,
{
}

} // verus!
