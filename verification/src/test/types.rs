//! What a test run found.

use vstd::prelude::*;
use std::path::PathBuf;

verus! {

/// std's owned path type, carried through the library unopened.
#[verifier::external_type_specification]
#[verifier::external_body]
pub struct ExPathBuf(PathBuf);

/// A test file that could not be checked, and why.
pub struct TestFailure {
    pub path: PathBuf,
    pub error: String,
}

/// The totals of a test run and its failures.
pub struct TestReport {
    pub total_files: usize,
    pub total_failed: usize,
    pub total_passed: usize,
    pub failures: Vec<TestFailure>,
}

impl TestReport {
    /// The totals agree with each other and with the failures.
    pub open spec fn consistent(&self) -> bool {
        &&& self.total_failed == self.failures@.len()
        &&& self.total_failed + self.total_passed == self.total_files
    }

    /// The report of a run over `total_files` files of which `failures` failed.
    pub fn tally(total_files: usize, failures: Vec<TestFailure>) -> (report: TestReport)
        requires
            failures@.len() <= total_files,
        ensures
            report.total_files == total_files,
            report.total_failed == failures@.len(),
            report.total_passed == total_files - failures@.len(),
            report.failures@ == failures@,
            report.consistent(),
    {
        let total_failed = failures.len();
        TestReport {
            total_files,
            total_failed,
            total_passed: total_files - total_failed,
            failures,
        }
    }
}

} // verus!
