//! The record of a run of the context-management integration checks.
use std::time::Duration;
use vstd::prelude::*;

verus! {

/// The outcome of one integration check.
pub struct IntegrationTestResult {
    pub test_name: String,
    pub passed: bool,
    pub execution_time: Duration,
    pub details: String,
    pub error_message: Option<String>,
}

/// The outcomes of the integration checks run so far.
pub struct ContextIntegrationTests {
    pub test_results: Vec<IntegrationTestResult>,
}

/// How many of the outcomes `rs` passed.
pub open spec fn passed_count(rs: Seq<IntegrationTestResult>) -> nat
    decreases rs.len(),
{
    if rs.len() == 0 {
        0
    } else {
        passed_count(rs.drop_last()) + if rs.last().passed {
            1nat
        } else {
            0nat
        }
    }
}

proof fn lemma_passed_count_bound(rs: Seq<IntegrationTestResult>)
    ensures
        passed_count(rs) <= rs.len(),
    decreases rs.len(),
{
    if rs.len() > 0 {
        lemma_passed_count_bound(rs.drop_last());
    }
}

impl ContextIntegrationTests {
    /// A record with no outcome yet.
    pub fn new() -> (r: Self)
        ensures
            r.test_results@.len() == 0,
    {
        ContextIntegrationTests { test_results: Vec::new() }
    }

    /// Records the outcome of one more check.
    pub fn record(&mut self, result: IntegrationTestResult)
        ensures
            final(self).test_results@ == old(self).test_results@.push(result),
    {
        self.test_results.push(result);
    }

    /// How many checks ran, passed and failed.
    pub fn outcome_counts(&self) -> (r: (usize, usize, usize))
        ensures
            r.0 == self.test_results@.len(),
            r.1 == passed_count(self.test_results@),
            r.2 == r.0 - r.1,
    {
        let mut passed: usize = 0;
        let mut i: usize = 0;
        while i < self.test_results.len()
            invariant
                i <= self.test_results@.len(),
                passed == passed_count(self.test_results@.take(i as int)),
                passed <= i,
            decreases self.test_results@.len() - i,
        {
            assert(self.test_results@.take(i + 1).drop_last() =~= self.test_results@.take(i as int));
            if self.test_results[i].passed {
                passed = passed + 1;
            }
            i = i + 1;
        }
        assert(self.test_results@.take(self.test_results@.len() as int) =~= self.test_results@);
        let total = self.test_results.len();
        (total, passed, total - passed)
    }
}

} // verus!
