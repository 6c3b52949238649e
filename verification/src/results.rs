//! Adapter result documents and the final classification of a test.
//!
//! Adapters report *raw* outcomes (`pass`, `fail`, `skip`) per test. Each raw
//! outcome is reclassified against the target's manifest into a final
//! [`Status`], which is what the matrix renders and what decides whether a run
//! failed.

use vstd::prelude::*;

use crate::text::opt_text;

verus! {

/// The raw status vocabulary adapters emit.
#[derive(Debug, Clone, Copy, PartialEq, Eq, Structural)]
pub enum RawStatus {
    /// The test passed.
    Pass,
    /// The test failed.
    Fail,
    /// The adapter or the guest skipped the test.
    Skip,
}

/// One raw per-test outcome as reported by an adapter.
#[derive(Debug, Clone)]
pub struct RawResult {
    /// Test id (matches the registry).
    pub test_id: String,
    /// Raw status the adapter observed.
    pub status: RawStatus,
    /// Optional failure or skip detail.
    pub detail: Option<String>,
}

/// The contents of a [`RawResult`].
#[verifier::ext_equal]
pub struct RawResultView {
    pub test_id: Seq<char>,
    pub status: RawStatus,
    pub detail: Option<Seq<char>>,
}

impl View for RawResult {
    type V = RawResultView;

    open spec fn view(&self) -> RawResultView {
        RawResultView {
            test_id: self.test_id@,
            status: self.status,
            detail: opt_text(self.detail),
        }
    }
}

/// A single adapter's result document: one target running in one environment.
#[derive(Debug, Clone)]
pub struct AdapterReport {
    /// Target id (matches a manifest's id).
    pub target: String,
    /// Environment the adapter ran in, e.g. `loopback`.
    pub environment: String,
    /// Raw per-test outcomes.
    pub results: Vec<RawResult>,
}

/// The final status of a test once manifest policy has been applied.
#[derive(Debug, Clone, Copy, PartialEq, Eq, Structural)]
pub enum Status {
    /// Passed and was expected to pass.
    Pass,
    /// Failed and was not expected to (fails the run).
    Fail,
    /// Skipped because the target's manifest declares a tag unsupported.
    SkipUnsupported,
    /// Failed, but the manifest declares it an expected-fail (does not fail).
    ExpectedFail,
    /// An expected-fail that unexpectedly passed (fails the run).
    UnexpectedPass,
    /// The registry lists this test but no adapter reported a result for it.
    Missing,
}

impl Status {
    /// Whether this final status fails the run.
    pub open spec fn fails(self) -> bool {
        self == Status::Fail || self == Status::UnexpectedPass
    }

    /// Whether this final status fails the run.
    pub fn is_failure(self) -> (r: bool)
        ensures
            r == self.fails(),
    {
        matches!(self, Status::Fail | Status::UnexpectedPass)
    }

    /// The short symbol of a status in a matrix cell.
    pub open spec fn mark(self) -> Seq<char> {
        match self {
            Status::Pass => "pass"@,
            Status::Fail => "FAIL"@,
            Status::SkipUnsupported => "skip"@,
            Status::ExpectedFail => "xfail"@,
            Status::UnexpectedPass => "UNEXPECTED-PASS"@,
            Status::Missing => "—"@,
        }
    }

    /// A short symbol for the markdown matrix cell.
    pub fn symbol(self) -> (r: &'static str)
        ensures
            r@ == self.mark(),
    {
        match self {
            Status::Pass => "pass",
            Status::Fail => "FAIL",
            Status::SkipUnsupported => "skip",
            Status::ExpectedFail => "xfail",
            Status::UnexpectedPass => "UNEXPECTED-PASS",
            Status::Missing => "—",
        }
    }
}

// ----- laws ------------------------------------------------------------------------------------------

/// The symbols tell the statuses apart: two different statuses never look alike in the
/// matrix. A failure reads `FAIL` and a pass `pass`, and nothing else reads so.
pub proof fn law_symbols_tell_statuses_apart(a: Status, b: Status)
    ensures
        a.mark() == b.mark() <==> a == b,
        a.mark() == "pass"@ <==> a == Status::Pass,
        a.mark() == "FAIL"@ <==> a == Status::Fail,
        a.mark() == "skip"@ <==> a == Status::SkipUnsupported,
        a.mark() == "xfail"@ <==> a == Status::ExpectedFail,
        a.mark() == "UNEXPECTED-PASS"@ <==> a == Status::UnexpectedPass,
{
    reveal_strlit("pass");
    reveal_strlit("FAIL");
    reveal_strlit("skip");
    reveal_strlit("xfail");
    reveal_strlit("UNEXPECTED-PASS");
    reveal_strlit("—");
    assert("pass"@[0] == 'p' && "FAIL"@[0] == 'F' && "skip"@[0] == 's' && "xfail"@[0] == 'x');
    assert("UNEXPECTED-PASS"@[0] == 'U');
}

/// What fails a run is shown in capitals, and only that: a run failed exactly if a symbol
/// in capitals stands in the matrix.
pub proof fn law_failures_are_shown_in_capitals(status: Status)
    ensures
        status.mark().len() > 0,
        status.fails() <==> 'A' <= status.mark()[0] <= 'Z',
{
    reveal_strlit("pass");
    reveal_strlit("FAIL");
    reveal_strlit("skip");
    reveal_strlit("xfail");
    reveal_strlit("UNEXPECTED-PASS");
    reveal_strlit("—");
}

} // verus!
