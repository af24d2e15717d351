//! Recognizers for the suite body: the per-test outcome lines, the suite
//! summary line, and the failure-detail blocks with their section wrapper.
use vstd::prelude::*;
use vstd::slice::slice_subrange;
use vstd::slice::slice_to_vec;
use vstd::utf8::valid_utf8;

use crate::lex::digits;
use crate::lex::line_ending;
use crate::lex::ok_or_failed;
use crate::lex::rest_of_line;
use crate::lex::spec_digits;
use crate::lex::spec_line_ending;
use crate::lex::spec_ok_or_failed;
use crate::lex::spec_rest_of_line;
use crate::lex::spec_tag_ws;
use crate::lex::tag_ws;
use crate::model::Failure;
use crate::model::FailureV;
use crate::model::SuiteResult;
use crate::model::SuiteResultV;
use crate::model::Test;
use crate::model::TestV;
use crate::model::tests_view;
use crate::model::failures_view;
use crate::prim::count_prefix;
use crate::prim::find_sub;
use crate::prim::match_tag;
use crate::prim::skip_sp;
use crate::prim::skip_ws;
use crate::prim::sp_pred;
use crate::prim::spec_find;
use crate::prim::spec_tag;
use crate::prim::ws_pred;
use crate::lex::lemma_digits_props;
use crate::tags::tag_dot;
use crate::tags::tag_dot_bytes;
use crate::tags::tag_failed_count;
use crate::tags::tag_failed_count_bytes;
use crate::tags::tag_filtered_out;
use crate::tags::tag_filtered_out_bytes;
use crate::tags::tag_ignored;
use crate::tags::tag_ignored_bytes;
use crate::tags::tag_measured;
use crate::tags::tag_measured_bytes;
use crate::tags::tag_name_end;
use crate::tags::tag_name_end_bytes;
use crate::tags::tag_passed;
use crate::tags::tag_passed_bytes;
use crate::tags::tag_test;
use crate::tags::tag_test_bytes;
use crate::tags::tag_backtrace_note;
use crate::tags::tag_backtrace_note_bytes;
use crate::tags::tag_dashes;
use crate::tags::tag_dashes_bytes;
use crate::tags::tag_failures;
use crate::tags::tag_failures_bytes;
use crate::tags::tag_space;
use crate::tags::tag_space_bytes;
use crate::tags::tag_stdout;
use crate::tags::tag_stdout_bytes;
use crate::tags::tag_test_result;
use crate::tags::tag_test_result_bytes;
use crate::utf8check::is_utf8;

verus! {

broadcast use crate::prim::lemma_count_prefix;

/// Zero-or-more repetition of a recognizer: the bytes consumed and the
/// values extracted, in encounter order.  The repetition stops at the first
/// failure; a recognizer of this grammar always consumes at least one byte
/// when it succeeds, so the inner guard never cuts a real repetition short.
pub open spec fn spec_many0<T>(s: Seq<u8>, p: spec_fn(Seq<u8>) -> Option<(int, T)>) -> (int, Seq<
    T,
>)
    decreases s.len(),
{
    match p(s) {
        Some((n, v)) => if 0 < n <= s.len() {
            let r = spec_many0(s.skip(n), p);
            (n + r.0, seq![v] + r.1)
        } else {
            (0, Seq::<T>::empty())
        },
        None => (0, Seq::<T>::empty()),
    }
}


pub open spec fn spec_space1(s: Seq<u8>) -> Option<int> {
    let n = count_prefix(s, sp_pred());
    if n >= 1 {
        Some(n)
    } else {
        None
    }
}

/// One test outcome line: the word `test`, spaces, the test name up to the
/// ellipsis marker, the marker, then the outcome keyword in whitespace.
/// The name must be valid UTF-8; the test starts with no error message.
pub open spec fn spec_test_line(s: Seq<u8>) -> Option<(int, TestV)> {
    match spec_tag(s, tag_test()) {
        Some(n1) => match spec_space1(s.skip(n1)) {
            Some(n2) => {
                let p = n1 + n2;
                match spec_find(s.skip(p), tag_name_end()) {
                    Some(k) => {
                        let name = s.skip(p).take(k);
                        if !valid_utf8(name) {
                            None
                        } else {
                            let q = p + k + tag_name_end().len();
                            let a = count_prefix(s.skip(q), ws_pred());
                            match spec_ok_or_failed(s.skip(q + a)) {
                                Some((m, st)) => {
                                    let b = count_prefix(s.skip(q + a + m), ws_pred());
                                    Some(
                                        (
                                            q + a + m + b,
                                            TestV { name: name, status: st, error: None },
                                        ),
                                    )
                                },
                                None => None,
                            }
                        }
                    },
                    None => None,
                }
            },
            None => None,
        },
        None => None,
    }
}
/// The zero-or-more test lines of one suite, in transcript order.
pub open spec fn test_line_p() -> spec_fn(Seq<u8>) -> Option<(int, TestV)> {
    |s: Seq<u8>| spec_test_line(s)
}

/// The consumed count and extracted tests of the test-line repetition.
pub open spec fn spec_test_lines(s: Seq<u8>) -> (int, Seq<TestV>) {
    spec_many0(s, test_line_p())
}

/// Recognizes one test outcome line.
pub fn test_result(input: &[u8]) -> (r: Option<(usize, Test)>)
    ensures
        match r {
            Some((n, t)) => 1 <= n <= input.len() && spec_test_line(input@) == Some(
                (n as int, t@),
            ),
            None => spec_test_line(input@) is None,
        },
{
    let t_test = tag_test_bytes();
    let n1 = match match_tag(input, &t_test) {
        Some(n) => n,
        None => {
            return None;
        },
    };
    let rem1 = slice_subrange(input, n1, input.len());
    proof {
        assert(rem1@ =~= input@.skip(n1 as int));
    }
    let n2 = skip_sp(rem1);
    if n2 < 1 {
        return None;
    }
    let p = n1 + n2;
    let remp = slice_subrange(input, p, input.len());
    proof {
        assert(remp@ =~= input@.skip(p as int));
    }
    let t_end = tag_name_end_bytes();
    let k = match find_sub(remp, &t_end) {
        Some(k) => k,
        None => {
            return None;
        },
    };
    let name_slice = slice_subrange(remp, 0, k);
    proof {
        assert(name_slice@ =~= input@.skip(p as int).take(k as int));
    }
    if !is_utf8(name_slice) {
        return None;
    }
    let q = p + k + t_end.len();
    let remq = slice_subrange(input, q, input.len());
    proof {
        assert(remq@ =~= input@.skip(q as int));
    }
    let a = skip_ws(remq);
    let remqa = slice_subrange(input, q + a, input.len());
    proof {
        assert(remqa@ =~= input@.skip(q as int + a as int));
    }
    match ok_or_failed(remqa) {
        Some((m, st)) => {
            let remfin = slice_subrange(input, q + a + m, input.len());
            proof {
                assert(remfin@ =~= input@.skip(q as int + a as int + m as int));
            }
            let b = skip_ws(remfin);
            let name = slice_to_vec(name_slice);
            Some((q + a + m + b, Test { name: name, status: st, error: None }))
        },
        None => None,
    }
}

/// Recognizes the test lines of one suite, zero or more, stopping at the
/// first line that is not a test outcome line.
pub fn test_results(input: &[u8]) -> (r: (usize, Vec<Test>))
    ensures
        r.0 <= input.len(),
        r.0 as int == spec_test_lines(input@).0,
        tests_view(r.1@) == spec_test_lines(input@).1,
{
    let mut pos: usize = 0;
    let mut acc: Vec<Test> = Vec::new();
    let mut go = true;
    proof {
        assert(input@.skip(0) =~= input@);
        assert(tests_view(acc@) =~= Seq::<TestV>::empty());
    }
    while go
        invariant
            pos <= input.len(),
            spec_test_lines(input@).0 == pos as int + spec_test_lines(input@.skip(pos as int)).0,
            spec_test_lines(input@).1 == tests_view(acc@) + spec_test_lines(
                input@.skip(pos as int),
            ).1,
            !go ==> spec_test_line(input@.skip(pos as int)) is None,
        decreases input.len() - pos + (if go {
            1int
        } else {
            0int
        }),
    {
        let rem = slice_subrange(input, pos, input.len());
        proof {
            assert(rem@ =~= input@.skip(pos as int));
        }
        match test_result(rem) {
            Some((n, t)) => {
                let ghost acc0 = acc@;
                let ghost tail = spec_test_lines(input@.skip(pos as int + n as int)).1;
                proof {
                    assert(input@.skip(pos as int).skip(n as int) =~= input@.skip(
                        pos as int + n as int,
                    ));
                }
                acc.push(t);
                proof {
                    assert(tests_view(acc@) =~= tests_view(acc0) + seq![t@]);
                    assert((tests_view(acc0) + seq![t@]) + tail =~= tests_view(acc0) + (seq![t@]
                        + tail));
                }
                pos = pos + n;
            },
            None => {
                go = false;
            },
        }
    }
    proof {
        assert(spec_test_lines(input@.skip(pos as int)).1 =~= Seq::<TestV>::empty());
        assert(tests_view(acc@) + Seq::<TestV>::empty() =~= tests_view(acc@));
    }
    (pos, acc)
}

/// A decimal count followed by its literal label, as the summary line
/// carries them: the number, then for instance the label of the passed
/// count.
pub open spec fn spec_count_label(s: Seq<u8>, label: Seq<u8>) -> Option<(int, int)> {
    match spec_digits(s) {
        Some((d, v)) => match spec_tag(s.skip(d), label) {
            Some(t) => Some((d + t, v)),
            None => None,
        },
        None => None,
    }
}

/// A count-with-label answer is positive, stays within the input, and its
/// value is never negative.
pub proof fn lemma_count_label_props(s: Seq<u8>, label: Seq<u8>)
    ensures
        spec_count_label(s, label) matches Some((n, v)) ==> 1 <= n <= s.len() && v >= 0,
{
    lemma_digits_props(s);
}

/// Recognizes a decimal count followed by the literal `label`.
pub fn count_label(input: &[u8], label: &Vec<u8>) -> (r: Option<(usize, i64)>)
    ensures
        match r {
            Some((n, v)) => 1 <= n <= input.len() && v >= 0 && spec_count_label(input@, label@)
                == Some((n as int, v as int)),
            None => spec_count_label(input@, label@) is None,
        },
{
    match digits(input) {
        Some((d, v)) => {
            let rem = slice_subrange(input, d, input.len());
            proof {
                assert(rem@ =~= input@.skip(d as int));
                lemma_digits_props(input@);
            }
            match match_tag(rem, label) {
                Some(t) => Some((d + t, v)),
                None => None,
            }
        },
        None => None,
    }
}

/// The suite summary line: the summary anchor, the outcome keyword, a
/// period, then the passed, failed, ignored and measured counts each with
/// its label, one further count that is parsed but not retained, and the
/// closing literal.  The total is the sum of passed, failed and ignored;
/// recognition fails if that sum exceeds the 64-bit signed range.
pub open spec fn spec_summary(s: Seq<u8>) -> Option<(int, SuiteResultV)> {
    match spec_tag_ws(s, tag_test_result()) {
        Some(n0) => match spec_ok_or_failed(s.skip(n0)) {
            Some((n1, st)) => {
                let p1 = n0 + n1;
                match spec_tag(s.skip(p1), tag_dot()) {
                    Some(nd) => {
                        let p2 = p1 + nd;
                        match spec_count_label(s.skip(p2), tag_passed()) {
                            Some((c1, passed)) => {
                                let p3 = p2 + c1;
                                match spec_count_label(s.skip(p3), tag_failed_count()) {
                                    Some((c2, failed)) => {
                                        let p4 = p3 + c2;
                                        match spec_count_label(s.skip(p4), tag_ignored()) {
                                            Some((c3, ignored)) => {
                                                let p5 = p4 + c3;
                                                match spec_count_label(
                                                    s.skip(p5),
                                                    tag_measured(),
                                                ) {
                                                    Some((c4, measured)) => {
                                                        let p6 = p5 + c4;
                                                        match spec_digits(s.skip(p6)) {
                                                            Some((c5, _)) => {
                                                                let p7 = p6 + c5;
                                                                match spec_tag_ws(
                                                                    s.skip(p7),
                                                                    tag_filtered_out(),
                                                                ) {
                                                                    Some(n2) => {
                                                                        if passed + failed
                                                                            + ignored > i64::MAX
                                                                            as int {
                                                                            None
                                                                        } else {
                                                                            Some(
                                                                                (
                                                                                    p7 + n2,
                                                                                    SuiteResultV {
                                                                                        state: st,
                                                                                        passed: passed,
                                                                                        failed: failed,
                                                                                        ignored: ignored,
                                                                                        total: passed
                                                                                            + failed
                                                                                            + ignored,
                                                                                        measured: measured,
                                                                                    },
                                                                                ),
                                                                            )
                                                                        }
                                                                    },
                                                                    None => None,
                                                                }
                                                            },
                                                            None => None,
                                                        }
                                                    },
                                                    None => None,
                                                }
                                            },
                                            None => None,
                                        }
                                    },
                                    None => None,
                                }
                            },
                            None => None,
                        }
                    },
                    None => None,
                }
            },
            None => None,
        },
        None => None,
    }
}
/// Recognizes the suite summary line and computes the aggregates.
pub fn suite_result(input: &[u8]) -> (r: Option<(usize, SuiteResult)>)
    ensures
        match r {
            Some((n, sr)) => 1 <= n <= input.len() && spec_summary(input@) == Some(
                (n as int, sr@),
            ),
            None => spec_summary(input@) is None,
        },
{
    let t_anchor = tag_test_result_bytes();
    let n0 = match tag_ws(input, &t_anchor) {
        Some(n) => n,
        None => {
            return None;
        },
    };
    let rem0 = slice_subrange(input, n0, input.len());
    proof {
        assert(rem0@ =~= input@.skip(n0 as int));
    }
    let (n1, st) = match ok_or_failed(rem0) {
        Some(r) => r,
        None => {
            return None;
        },
    };
    let p1 = n0 + n1;
    let rem1 = slice_subrange(input, p1, input.len());
    proof {
        assert(rem1@ =~= input@.skip(p1 as int));
    }
    let t_dot = tag_dot_bytes();
    let nd = match match_tag(rem1, &t_dot) {
        Some(n) => n,
        None => {
            return None;
        },
    };
    let p2 = p1 + nd;
    let rem2 = slice_subrange(input, p2, input.len());
    proof {
        assert(rem2@ =~= input@.skip(p2 as int));
    }
    let t_passed = tag_passed_bytes();
    let (c1, passed) = match count_label(rem2, &t_passed) {
        Some(r) => r,
        None => {
            return None;
        },
    };
    let p3 = p2 + c1;
    let rem3 = slice_subrange(input, p3, input.len());
    proof {
        assert(rem3@ =~= input@.skip(p3 as int));
    }
    let t_failed = tag_failed_count_bytes();
    let (c2, failed) = match count_label(rem3, &t_failed) {
        Some(r) => r,
        None => {
            return None;
        },
    };
    let p4 = p3 + c2;
    let rem4 = slice_subrange(input, p4, input.len());
    proof {
        assert(rem4@ =~= input@.skip(p4 as int));
    }
    let t_ignored = tag_ignored_bytes();
    let (c3, ignored) = match count_label(rem4, &t_ignored) {
        Some(r) => r,
        None => {
            return None;
        },
    };
    let p5 = p4 + c3;
    let rem5 = slice_subrange(input, p5, input.len());
    proof {
        assert(rem5@ =~= input@.skip(p5 as int));
    }
    let t_measured = tag_measured_bytes();
    let (c4, measured) = match count_label(rem5, &t_measured) {
        Some(r) => r,
        None => {
            return None;
        },
    };
    let p6 = p5 + c4;
    let rem6 = slice_subrange(input, p6, input.len());
    proof {
        assert(rem6@ =~= input@.skip(p6 as int));
    }
    let (c5, _filtered) = match digits(rem6) {
        Some(r) => r,
        None => {
            return None;
        },
    };
    proof {
        lemma_digits_props(rem6@);
    }
    let p7 = p6 + c5;
    let rem7 = slice_subrange(input, p7, input.len());
    proof {
        assert(rem7@ =~= input@.skip(p7 as int));
    }
    let t_filtered = tag_filtered_out_bytes();
    let n2 = match tag_ws(rem7, &t_filtered) {
        Some(n) => n,
        None => {
            return None;
        },
    };
    if passed > i64::MAX - failed {
        return None;
    }
    if passed + failed > i64::MAX - ignored {
        return None;
    }
    let total = passed + failed + ignored;
    Some(
        (
            p7 + n2,
            SuiteResult {
                state: st,
                passed: passed,
                failed: failed,
                ignored: ignored,
                total: total,
                measured: measured,
            },
        ),
    )
}

/// The failure banner: dashes in whitespace, the failing test's name up to
/// the next space, then the stream word and the closing dashes, each in
/// whitespace.  The name must be valid UTF-8.
pub open spec fn spec_fail_banner(s: Seq<u8>) -> Option<(int, Seq<u8>)> {
    match spec_tag_ws(s, tag_dashes()) {
        Some(n0) => match spec_find(s.skip(n0), tag_space()) {
            Some(k) => {
                let name = s.skip(n0).take(k);
                if !valid_utf8(name) {
                    None
                } else {
                    let p = n0 + k;
                    match spec_tag_ws(s.skip(p), tag_stdout()) {
                        Some(n1) => match spec_tag_ws(s.skip(p + n1), tag_dashes()) {
                            Some(n2) => Some((p + n1 + n2, name)),
                            None => None,
                        },
                        None => None,
                    }
                }
            },
            None => None,
        },
        None => None,
    }
}
/// Recognizes the failure banner and extracts the failing test's name.
pub fn fail_line(input: &[u8]) -> (r: Option<(usize, Vec<u8>)>)
    ensures
        match r {
            Some((n, c)) => 1 <= n <= input.len() && spec_fail_banner(input@) == Some(
                (n as int, c@),
            ),
            None => spec_fail_banner(input@) is None,
        },
{
    let t_dashes = tag_dashes_bytes();
    let n0 = match tag_ws(input, &t_dashes) {
        Some(n) => n,
        None => {
            return None;
        },
    };
    let rem0 = slice_subrange(input, n0, input.len());
    proof {
        assert(rem0@ =~= input@.skip(n0 as int));
    }
    let t_space = tag_space_bytes();
    let k = match find_sub(rem0, &t_space) {
        Some(k) => k,
        None => {
            return None;
        },
    };
    let name_slice = slice_subrange(rem0, 0, k);
    proof {
        assert(name_slice@ =~= input@.skip(n0 as int).take(k as int));
    }
    if !is_utf8(name_slice) {
        return None;
    }
    let p = n0 + k;
    let remp = slice_subrange(input, p, input.len());
    proof {
        assert(remp@ =~= input@.skip(p as int));
    }
    let t_stdout = tag_stdout_bytes();
    let n1 = match tag_ws(remp, &t_stdout) {
        Some(n) => n,
        None => {
            return None;
        },
    };
    let remp1 = slice_subrange(input, p + n1, input.len());
    proof {
        assert(remp1@ =~= input@.skip(p as int + n1 as int));
    }
    let n2 = match tag_ws(remp1, &t_dashes) {
        Some(n) => n,
        None => {
            return None;
        },
    };
    let name = slice_to_vec(name_slice);
    Some((p + n1 + n2, name))
}

/// One failure block: the banner, one line of detail text as the message,
/// an optional backtrace-hint literal, then two line terminators.  Only the
/// first line of the detail text is retained as the message.
pub open spec fn spec_failure(s: Seq<u8>) -> Option<(int, FailureV)> {
    match spec_fail_banner(s) {
        Some((n0, name)) => match spec_rest_of_line(s.skip(n0)) {
            Some((n1, msg)) => {
                let p = n0 + n1;
                let n2: int = match spec_tag(s.skip(p), tag_backtrace_note()) {
                    Some(k) => k,
                    None => 0,
                };
                let q = p + n2;
                match spec_line_ending(s.skip(q)) {
                    Some(a) => match spec_line_ending(s.skip(q + a)) {
                        Some(b) => Some((q + a + b, FailureV { name: name, error: msg })),
                        None => None,
                    },
                    None => None,
                }
            },
            None => None,
        },
        None => None,
    }
}
/// Recognizes one failure block.
pub fn failure(input: &[u8]) -> (r: Option<(usize, Failure)>)
    ensures
        match r {
            Some((n, f)) => 1 <= n <= input.len() && spec_failure(input@) == Some((n as int, f@)),
            None => spec_failure(input@) is None,
        },
{
    let (n0, name) = match fail_line(input) {
        Some(r) => r,
        None => {
            return None;
        },
    };
    let rem0 = slice_subrange(input, n0, input.len());
    proof {
        assert(rem0@ =~= input@.skip(n0 as int));
    }
    let (n1, msg) = match rest_of_line(rem0) {
        Some(r) => r,
        None => {
            return None;
        },
    };
    let p = n0 + n1;
    let remp = slice_subrange(input, p, input.len());
    proof {
        assert(remp@ =~= input@.skip(p as int));
    }
    let t_note = tag_backtrace_note_bytes();
    let n2: usize = match match_tag(remp, &t_note) {
        Some(k) => k,
        None => 0,
    };
    let q = p + n2;
    let remq = slice_subrange(input, q, input.len());
    proof {
        assert(remq@ =~= input@.skip(q as int));
    }
    let a = match line_ending(remq) {
        Some(a) => a,
        None => {
            return None;
        },
    };
    let remqa = slice_subrange(input, q + a, input.len());
    proof {
        assert(remqa@ =~= input@.skip(q as int + a as int));
    }
    let b = match line_ending(remqa) {
        Some(b) => b,
        None => {
            return None;
        },
    };
    Some((q + a + b, Failure { name: name, error: msg }))
}

/// The failure-block repetition as a predicate for `spec_many0`.
pub open spec fn failure_p() -> spec_fn(Seq<u8>) -> Option<(int, FailureV)> {
    |s: Seq<u8>| spec_failure(s)
}

/// The consumed count and extracted failures of the repetition.
pub open spec fn spec_failures_list(s: Seq<u8>) -> (int, Seq<FailureV>) {
    spec_many0(s, failure_p())
}

/// One or more failure blocks: the repetition, required to be nonempty.
pub open spec fn spec_failures(s: Seq<u8>) -> Option<(int, Seq<FailureV>)> {
    let r = spec_failures_list(s);
    if r.1.len() == 0 {
        None
    } else {
        Some(r)
    }
}

/// Recognizes one or more consecutive failure blocks.
pub fn failures(input: &[u8]) -> (r: Option<(usize, Vec<Failure>)>)
    ensures
        match r {
            Some((n, fs)) => n <= input.len() && spec_failures(input@) == Some(
                (n as int, failures_view(fs@)),
            ),
            None => spec_failures(input@) is None,
        },
{
    let mut pos: usize = 0;
    let mut acc: Vec<Failure> = Vec::new();
    let mut go = true;
    proof {
        assert(input@.skip(0) =~= input@);
        assert(failures_view(acc@) =~= Seq::<FailureV>::empty());
    }
    while go
        invariant
            pos <= input.len(),
            acc.len() as int == failures_view(acc@).len(),
            spec_failures_list(input@).0 == pos as int + spec_failures_list(
                input@.skip(pos as int),
            ).0,
            spec_failures_list(input@).1 == failures_view(acc@) + spec_failures_list(
                input@.skip(pos as int),
            ).1,
            !go ==> spec_failure(input@.skip(pos as int)) is None,
        decreases input.len() - pos + (if go {
            1int
        } else {
            0int
        }),
    {
        let rem = slice_subrange(input, pos, input.len());
        proof {
            assert(rem@ =~= input@.skip(pos as int));
        }
        match failure(rem) {
            Some((n, f)) => {
                let ghost acc0 = acc@;
                let ghost tail = spec_failures_list(input@.skip(pos as int + n as int)).1;
                proof {
                    assert(input@.skip(pos as int).skip(n as int) =~= input@.skip(
                        pos as int + n as int,
                    ));
                }
                acc.push(f);
                proof {
                    assert(failures_view(acc@) =~= failures_view(acc0) + seq![f@]);
                    assert((failures_view(acc0) + seq![f@]) + tail =~= failures_view(acc0) + (
                    seq![f@] + tail));
                }
                pos = pos + n;
            },
            None => {
                go = false;
            },
        }
    }
    proof {
        assert(spec_failures_list(input@.skip(pos as int)).1 =~= Seq::<FailureV>::empty());
        assert(failures_view(acc@) + Seq::<FailureV>::empty() =~= failures_view(acc@));
    }
    if acc.len() == 0 {
        return None;
    }
    Some((pos, acc))
}

/// The optional failures section: the section header, one or more failure
/// blocks, then everything up to (but not including) the summary anchor is
/// discarded, covering the redundant name-listing the tool also emits.  If
/// any part is missing the section consumes nothing and yields no failures.
pub open spec fn spec_fail_section(s: Seq<u8>) -> (int, Option<Seq<FailureV>>) {
    match spec_tag_ws(s, tag_failures()) {
        Some(n0) => match spec_failures(s.skip(n0)) {
            Some((n1, fs)) => match spec_find(s.skip(n0 + n1), tag_test_result()) {
                Some(k) => (n0 + n1 + k, Some(fs)),
                None => (0, None),
            },
            None => (0, None),
        },
        None => (0, None),
    }
}
/// Recognizes the optional failures section.
pub fn fail_section(input: &[u8]) -> (r: (usize, Option<Vec<Failure>>))
    ensures
        r.0 <= input.len(),
        match r.1 {
            Some(fs) => spec_fail_section(input@) == ((r.0 as int, Some(failures_view(fs@)))),
            None => r.0 == 0 && spec_fail_section(input@).1 is None && spec_fail_section(
                input@,
            ).0 == 0,
        },
{
    let t_failures = tag_failures_bytes();
    let n0 = match tag_ws(input, &t_failures) {
        Some(n) => n,
        None => {
            return (0, None);
        },
    };
    let rem0 = slice_subrange(input, n0, input.len());
    proof {
        assert(rem0@ =~= input@.skip(n0 as int));
    }
    let (n1, fs) = match failures(rem0) {
        Some(r) => r,
        None => {
            return (0, None);
        },
    };
    let rem1 = slice_subrange(input, n0 + n1, input.len());
    proof {
        assert(rem1@ =~= input@.skip(n0 as int + n1 as int));
    }
    let t_anchor = tag_test_result_bytes();
    let k = match find_sub(rem1, &t_anchor) {
        Some(k) => k,
        None => {
            return (0, None);
        },
    };
    (n0 + n1 + k, Some(fs))
}

} // verus!
