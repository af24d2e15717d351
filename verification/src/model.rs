//! The data model of the report: test outcomes, suite aggregates, failure
//! records, suites and the parse-failure signal, together with their
//! mathematical views.
//!
//! Text captured from the transcript is held as owned bytes; every captured
//! region is checked to be valid UTF-8 by the recognizers before a value is
//! built from it.
use vstd::prelude::*;

verus! {

/// The outcome keyword of a test line or of a suite summary: `ok` or
/// `FAILED`.
#[derive(Clone, Copy, Debug, PartialEq, Eq, Structural)]
pub enum Status {
    Pass,
    Fail,
}

/// One test's outcome: its name, its status keyword, and the failure
/// message correlated to it by name, if any.
#[derive(Debug, PartialEq)]
pub struct Test {
    pub name: Vec<u8>,
    pub status: Status,
    pub error: Option<Vec<u8>>,
}

/// The view of a `Test`.
pub ghost struct TestV {
    pub name: Seq<u8>,
    pub status: Status,
    pub error: Option<Seq<u8>>,
}

impl View for Test {
    type V = TestV;

    open spec fn view(&self) -> TestV {
        TestV {
            name: self.name@,
            status: self.status,
            error: match self.error {
                Some(e) => Some(e@),
                None => None,
            },
        }
    }
}

/// The aggregate counts of one suite's summary line.  The transcript's
/// "filtered out" count is parsed but not retained, and `total` is computed
/// as `passed + failed + ignored`.
#[derive(Debug, PartialEq)]
pub struct SuiteResult {
    pub state: Status,
    pub passed: i64,
    pub failed: i64,
    pub ignored: i64,
    pub total: i64,
    pub measured: i64,
}

/// The view of a `SuiteResult`.
pub ghost struct SuiteResultV {
    pub state: Status,
    pub passed: int,
    pub failed: int,
    pub ignored: int,
    pub total: int,
    pub measured: int,
}

impl View for SuiteResult {
    type V = SuiteResultV;

    open spec fn view(&self) -> SuiteResultV {
        SuiteResultV {
            state: self.state,
            passed: self.passed as int,
            failed: self.failed as int,
            ignored: self.ignored as int,
            total: self.total as int,
            measured: self.measured as int,
        }
    }
}

/// One failure block: the failing test's name and the first line of its
/// detail text.  Failure records live only between the failure-block
/// recognizer and the correlator; the report never exposes them.
#[derive(Debug, PartialEq)]
pub struct Failure {
    pub name: Vec<u8>,
    pub error: Vec<u8>,
}

/// The view of a `Failure`.
pub ghost struct FailureV {
    pub name: Seq<u8>,
    pub error: Seq<u8>,
}

impl View for Failure {
    type V = FailureV;

    open spec fn view(&self) -> FailureV {
        FailureV { name: self.name@, error: self.error@ }
    }
}

/// One complete suite: its display name, the summary aggregates, and its
/// tests in transcript order with failure messages correlated in.
#[derive(Debug, PartialEq)]
pub struct Suite {
    pub name: Vec<u8>,
    pub state: Status,
    pub passed: i64,
    pub failed: i64,
    pub ignored: i64,
    pub measured: i64,
    pub total: i64,
    pub tests: Vec<Test>,
}

/// The view of a `Suite`.
pub ghost struct SuiteV {
    pub name: Seq<u8>,
    pub state: Status,
    pub passed: int,
    pub failed: int,
    pub ignored: int,
    pub measured: int,
    pub total: int,
    pub tests: Seq<TestV>,
}

impl View for Suite {
    type V = SuiteV;

    open spec fn view(&self) -> SuiteV {
        SuiteV {
            name: self.name@,
            state: self.state,
            passed: self.passed as int,
            failed: self.failed as int,
            ignored: self.ignored as int,
            measured: self.measured as int,
            total: self.total as int,
            tests: self.tests@.map_values(|t: Test| t@),
        }
    }
}

/// Why a transcript yields no report: nothing recognizable at all, or a
/// recognizable opening (a suite header or the error keyword) whose block
/// then breaks off or deviates from the grammar.
#[derive(Clone, Copy, Debug, PartialEq, Eq, Structural)]
pub enum ParseError {
    NoContent,
    Malformed,
}

/// The views of a sequence of suites.
pub open spec fn suites_view(v: Seq<Suite>) -> Seq<SuiteV> {
    v.map_values(|s: Suite| s@)
}

/// The views of a sequence of tests.
pub open spec fn tests_view(v: Seq<Test>) -> Seq<TestV> {
    v.map_values(|t: Test| t@)
}

/// The views of a sequence of failures.
pub open spec fn failures_view(v: Seq<Failure>) -> Seq<FailureV> {
    v.map_values(|f: Failure| f@)
}

} // verus!
