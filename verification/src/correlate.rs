//! The failure correlator: merging the failure messages of a suite's
//! failures section into its test list, matching by exact name, and the
//! suite assembler that combines the header name, the correlated tests and
//! the summary aggregates into one suite.
use vstd::prelude::*;

use crate::model::Failure;
use crate::model::FailureV;
use crate::model::Suite;
use crate::model::SuiteResult;
use crate::model::SuiteResultV;
use crate::model::SuiteV;
use crate::model::Test;
use crate::model::TestV;
use crate::model::failures_view;
use crate::model::tests_view;
use crate::prim::bytes_eq;
use crate::prim::clone_bytes;

verus! {

/// The message of the first failure whose name is exactly `name`, if any.
pub open spec fn spec_find_message(name: Seq<u8>, fs: Seq<FailureV>) -> Option<Seq<u8>>
    decreases fs.len(),
{
    if fs.len() == 0 {
        None
    } else if fs[0].name == name {
        Some(fs[0].error)
    } else {
        spec_find_message(name, fs.skip(1))
    }
}

/// Each test with the message of its exactly-named failure merged in; the
/// name, the status and the order are untouched.
pub open spec fn spec_correlate(tests: Seq<TestV>, fs: Seq<FailureV>) -> Seq<TestV> {
    tests.map_values(
        |t: TestV|
            TestV { name: t.name, status: t.status, error: spec_find_message(t.name, fs) },
    )
}

/// One suite assembled from its header name, its recognized tests, its
/// optional failures and its summary aggregates.  With no failures section
/// the test list is passed through unchanged.
pub open spec fn spec_assemble(
    name: Seq<u8>,
    tests: Seq<TestV>,
    fails: Option<Seq<FailureV>>,
    sr: SuiteResultV,
) -> SuiteV {
    let tws = match fails {
        Some(fs) => spec_correlate(tests, fs),
        None => tests,
    };
    SuiteV {
        name: name,
        state: sr.state,
        passed: sr.passed,
        failed: sr.failed,
        ignored: sr.ignored,
        measured: sr.measured,
        total: sr.total,
        tests: tws,
    }
}

/// A message found by exact-name lookup comes from a failure with exactly
/// the sought name, and a name that no failure carries finds no message.
pub proof fn lemma_find_message_exact(name: Seq<u8>, fs: Seq<FailureV>)
    ensures
        (forall|j: int| 0 <= j < fs.len() ==> (#[trigger] fs[j]).name != name)
            ==> spec_find_message(name, fs) is None,
        spec_find_message(name, fs) matches Some(m) ==> exists|j: int|
            0 <= j < fs.len() && (#[trigger] fs[j]).name == name && fs[j].error == m,
    decreases fs.len(),
{
    if fs.len() > 0 && fs[0].name != name {
        lemma_find_message_exact(name, fs.skip(1));
        if let Some(m) = spec_find_message(name, fs.skip(1)) {
            let j = choose|j: int|
                0 <= j < fs.skip(1).len() && (#[trigger] fs.skip(1)[j]).name == name && fs.skip(
                    1,
                )[j].error == m;
            assert(fs[j + 1] == fs.skip(1)[j]);
        }
    }
}

/// Correlation keeps the test list's length and order: each test keeps its
/// name and its status keyword, in the position its test line held in the
/// transcript; only the message field is filled in, by exact-name match.
pub proof fn lemma_correlate_preserves_order(tests: Seq<TestV>, fs: Seq<FailureV>)
    ensures
        spec_correlate(tests, fs).len() == tests.len(),
        forall|i: int|
            0 <= i < tests.len() ==> (#[trigger] spec_correlate(tests, fs)[i]).name
                == tests[i].name && spec_correlate(tests, fs)[i].status == tests[i].status
                && spec_correlate(tests, fs)[i].error == spec_find_message(tests[i].name, fs),
{
}

/// Correlation is exact-name match, test by test: a test whose name no
/// failure carries keeps no message, whatever its own status says; and a
/// merged message always comes from a failure named exactly like the test.
pub proof fn lemma_correlate_exact_match(tests: Seq<TestV>, fs: Seq<FailureV>, i: int)
    requires
        0 <= i < tests.len(),
    ensures
        spec_correlate(tests, fs)[i].error == spec_find_message(tests[i].name, fs),
        (forall|j: int| 0 <= j < fs.len() ==> (#[trigger] fs[j]).name != tests[i].name)
            ==> spec_correlate(tests, fs)[i].error is None,
        spec_correlate(tests, fs)[i].error matches Some(m) ==> exists|j: int|
            0 <= j < fs.len() && (#[trigger] fs[j]).name == tests[i].name && fs[j].error == m,
{
    lemma_find_message_exact(tests[i].name, fs);
}

/// The assembler passes the recognized tests through in order: the suite
/// holds exactly as many tests as lines were recognized, with the names and
/// statuses unchanged, and a message only where the failures section held
/// one under exactly that test's name.
pub proof fn lemma_assemble_preserves_tests(
    name: Seq<u8>,
    tests: Seq<TestV>,
    fails: Option<Seq<FailureV>>,
    sr: SuiteResultV,
)
    ensures
        spec_assemble(name, tests, fails, sr).tests.len() == tests.len(),
        forall|i: int|
            0 <= i < tests.len() ==> (#[trigger] spec_assemble(name, tests, fails, sr).tests[i]).name
                == tests[i].name && spec_assemble(name, tests, fails, sr).tests[i].status
                == tests[i].status,
        forall|i: int|
            0 <= i < tests.len() ==> (#[trigger] spec_assemble(name, tests, fails, sr).tests[i]).error
                == (match fails {
                Some(fs) => spec_find_message(tests[i].name, fs),
                None => tests[i].error,
            }),
{
    if let Some(fs) = fails {
        lemma_correlate_preserves_order(tests, fs);
    }
}

/// Looks up the message of the first failure whose name equals `name`.
pub fn find_message_by_name(name: &Vec<u8>, failures: &Vec<Failure>) -> (r: Option<Vec<u8>>)
    ensures
        match r {
            Some(m) => spec_find_message(name@, failures_view(failures@)) == Some(m@),
            None => spec_find_message(name@, failures_view(failures@)) is None,
        },
{
    let ghost fv = failures_view(failures@);
    let mut i: usize = 0;
    proof {
        assert(fv.skip(0) =~= fv);
    }
    while i < failures.len()
        invariant
            i <= failures.len(),
            fv == failures_view(failures@),
            fv.len() == failures.len(),
            spec_find_message(name@, fv) == spec_find_message(name@, fv.skip(i as int)),
        decreases failures.len() - i,
    {
        if bytes_eq(&failures[i].name, name) {
            proof {
                assert(fv.skip(i as int)[0] == fv[i as int]);
                assert(fv[i as int] == failures@[i as int]@);
            }
            return Some(clone_bytes(&failures[i].error));
        }
        proof {
            assert(fv.skip(i as int)[0] == fv[i as int]);
            assert(fv.skip(i as int).skip(1) =~= fv.skip(i as int + 1));
        }
        i = i + 1;
    }
    proof {
        assert(fv.skip(i as int).len() == 0);
    }
    None
}

/// Combines a header name, recognized tests, an optional failures section
/// and the summary aggregates into one suite, merging failure messages into
/// the tests by exact name.
pub fn handle_parsed_suite(
    name: Vec<u8>,
    tests: Vec<Test>,
    failures: Option<Vec<Failure>>,
    result: SuiteResult,
) -> (r: Suite)
    ensures
        r@ == spec_assemble(
            name@,
            tests_view(tests@),
            match failures {
                Some(fs) => Some(failures_view(fs@)),
                None => None,
            },
            result@,
        ),
{
    match failures {
        Some(fs) => {
            let ghost tv = tests_view(tests@);
            let ghost fv = failures_view(fs@);
            let mut out: Vec<Test> = Vec::new();
            let mut i: usize = 0;
            while i < tests.len()
                invariant
                    i <= tests.len(),
                    out.len() == i,
                    tv == tests_view(tests@),
                    fv == failures_view(fs@),
                    tv.len() == tests.len(),
                    forall|j: int|
                        0 <= j < i ==> (#[trigger] out@[j])@ == spec_correlate(tv, fv)[j],
                decreases tests.len() - i,
            {
                let err = find_message_by_name(&tests[i].name, &fs);
                let name_c = clone_bytes(&tests[i].name);
                let st = tests[i].status;
                out.push(Test { name: name_c, status: st, error: err });
                proof {
                    assert(tv[i as int] == tests@[i as int]@);
                }
                i = i + 1;
            }
            proof {
                assert(tests_view(out@) =~= spec_correlate(tv, fv));
            }
            Suite {
                name: name,
                state: result.state,
                passed: result.passed,
                failed: result.failed,
                ignored: result.ignored,
                measured: result.measured,
                total: result.total,
                tests: out,
            }
        },
        None => Suite {
            name: name,
            state: result.state,
            passed: result.passed,
            failed: result.failed,
            ignored: result.ignored,
            measured: result.measured,
            total: result.total,
            tests: tests,
        },
    }
}

} // verus!
