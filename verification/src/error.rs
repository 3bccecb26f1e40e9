//! How a test of the harness fails.
use vstd::prelude::*;
use crate::text::Line;

verus! {

/// The ways in which a test can fail.
#[derive(Clone, Copy, PartialEq, Eq, Structural, Debug)]
pub enum FailureKind {
    /// The kernel is not in the loaded module.
    KernelNotFound,
    /// The results are not what they must be.
    Verification,
    /// The kernel did not come to an end in time.
    Timeout,
}

/// A failed test: how it failed, which test it was, and what was found.
#[derive(Debug)]
pub struct HarnessError {
    pub kind: FailureKind,
    pub test: &'static str,
    pub detail: String,
}

/// What a contract says of a failure.
pub struct Failure {
    pub kind: FailureKind,
    pub test: Seq<char>,
    pub detail: Seq<char>,
}

impl View for HarnessError {
    type V = Failure;

    open spec fn view(&self) -> Failure {
        Failure { kind: self.kind, test: self.test@, detail: self.detail@ }
    }
}

/// A failure of the results.
pub open spec fn rejected(test: Seq<char>, detail: Seq<char>) -> Failure {
    Failure { kind: FailureKind::Verification, test, detail }
}

/// A failure to come to an end.
pub open spec fn overdue(test: Seq<char>, detail: Seq<char>) -> Failure {
    Failure { kind: FailureKind::Timeout, test, detail }
}

/// The failure that a result reports, if it does.
pub open spec fn reported<T>(result: Result<T, HarnessError>) -> Option<Failure> {
    match result {
        Ok(_) => None,
        Err(error) => Some(error@),
    }
}

impl HarnessError {
    /// The results are not what they must be.
    pub fn verification(test: &'static str, detail: Line) -> (error: HarnessError)
        ensures
            error@ == rejected(test@, detail@),
    {
        HarnessError { kind: FailureKind::Verification, test, detail: detail.done() }
    }

    /// The kernel did not come to an end in time.
    pub fn timeout(test: &'static str, detail: Line) -> (error: HarnessError)
        ensures
            error@ == overdue(test@, detail@),
    {
        HarnessError { kind: FailureKind::Timeout, test, detail: detail.done() }
    }
}

} // verus!
