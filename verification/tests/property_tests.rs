//! Scenario and edge-case tests: the minimal passing suite, the failing
//! test with a correlated message, consecutive suites, the aggregate
//! invariant, noise-line invariance, the parse-failure kinds, and the
//! limits of the number and text recognizers.
use cargo_test_parser::correlate::handle_parsed_suite;
use cargo_test_parser::lex::digits;
use cargo_test_parser::lex::suite_line;
use cargo_test_parser::model::Failure;
use cargo_test_parser::model::ParseError;
use cargo_test_parser::model::Status;
use cargo_test_parser::model::Suite;
use cargo_test_parser::model::SuiteResult;
use cargo_test_parser::model::Test;
use cargo_test_parser::parser::cargo_test_result_parser;
use cargo_test_parser::recog::failures;
use cargo_test_parser::recog::suite_result;
use cargo_test_parser::recog::test_result;

#[test]
fn minimal_passing_suite() {
    let output = b"Running x\nrunning 1 tests\ntest a ... ok\ntest result: ok. 1 passed; 0 failed; 0 ignored; 0 measured; 0 filtered out";
    let expected = vec![Suite {
        name: b"x".to_vec(),
        state: Status::Pass,
        passed: 1,
        failed: 0,
        ignored: 0,
        measured: 0,
        total: 1,
        tests: vec![Test { name: b"a".to_vec(), status: Status::Pass, error: None }],
    }];
    assert_eq!(cargo_test_result_parser(output), Ok(expected));
}

#[test]
fn failing_test_carries_its_message() {
    let output = b"Running s\nrunning 1 tests\ntest fail ... FAILED\nfailures:\n\n---- fail stdout ----\nsomething broke\n\n\ntest result: FAILED. 0 passed; 1 failed; 0 ignored; 0 measured; 0 filtered out";
    let report = cargo_test_result_parser(output).unwrap();
    assert_eq!(report.len(), 1);
    assert_eq!(report[0].state, Status::Fail);
    assert_eq!(
        report[0].tests,
        vec![Test {
            name: b"fail".to_vec(),
            status: Status::Fail,
            error: Some(b"something broke".to_vec()),
        }]
    );
}

#[test]
fn two_suites_in_transcript_order() {
    let output = b"Running one\nrunning 1 tests\ntest a ... ok\ntest result: ok. 1 passed; 0 failed; 0 ignored; 0 measured; 0 filtered out\n\nRunning two\nrunning 0 tests\n\ntest result: ok. 0 passed; 0 failed; 0 ignored; 0 measured; 0 filtered out";
    let report = cargo_test_result_parser(output).unwrap();
    assert_eq!(report.len(), 2);
    assert_eq!(report[0].name, b"one".to_vec());
    assert_eq!(report[1].name, b"two".to_vec());
    assert_eq!(report[0].tests[0].name, b"a".to_vec());
    assert_eq!(report[1].tests.len(), 0);
}

#[test]
fn test_order_matches_the_transcript() {
    let output = b"Running s\nrunning 3 tests\ntest c ... ok\ntest a ... FAILED\ntest b ... ok\ntest result: FAILED. 2 passed; 1 failed; 0 ignored; 0 measured; 0 filtered out";
    let report = cargo_test_result_parser(output).unwrap();
    let names: Vec<Vec<u8>> = report[0].tests.iter().map(|t| t.name.clone()).collect();
    assert_eq!(names, vec![b"c".to_vec(), b"a".to_vec(), b"b".to_vec()]);
}

#[test]
fn totals_equal_passed_plus_failed_plus_ignored() {
    let output = b"test result: ok. 4 passed; 2 failed; 3 ignored; 7 measured; 9 filtered out";
    let (_, sr) = suite_result(output).unwrap();
    assert_eq!(sr.total, sr.passed + sr.failed + sr.ignored);
    assert_eq!(sr.total, 9);
    assert_eq!(sr.measured, 7);
}

#[test]
fn failed_test_without_matching_block_keeps_no_error() {
    let output = b"Running s\nrunning 2 tests\ntest one ... FAILED\ntest two ... FAILED\nfailures:\n\n---- one stdout ----\nboom\n\n\ntest result: FAILED. 0 passed; 2 failed; 0 ignored; 0 measured; 0 filtered out";
    let report = cargo_test_result_parser(output).unwrap();
    assert_eq!(report[0].tests[0].error, Some(b"boom".to_vec()));
    assert_eq!(report[0].tests[1].status, Status::Fail);
    assert_eq!(report[0].tests[1].error, None);
}

#[test]
fn correlation_is_exact_name_match() {
    let tests = vec![
        Test { name: b"ab".to_vec(), status: Status::Fail, error: None },
        Test { name: b"a".to_vec(), status: Status::Pass, error: None },
    ];
    let fs = vec![Failure { name: b"a".to_vec(), error: b"msg".to_vec() }];
    let result = SuiteResult {
        state: Status::Fail,
        passed: 1,
        failed: 1,
        ignored: 0,
        total: 2,
        measured: 0,
    };
    let suite = handle_parsed_suite(b"s".to_vec(), tests, Some(fs), result);
    assert_eq!(suite.tests[0].error, None);
    assert_eq!(suite.tests[1].error, Some(b"msg".to_vec()));
}

#[test]
fn noise_lines_do_not_affect_the_report() {
    let body = b"Running x\nrunning 1 tests\ntest a ... ok\ntest result: ok. 1 passed; 0 failed; 0 ignored; 0 measured; 0 filtered out";
    let mut noisy: Vec<u8> = Vec::new();
    noisy.extend_from_slice(b" Downloading alpha v0.1.0\n");
    noisy.extend_from_slice(b"   Compiling alpha v0.1.0\n");
    noisy.extend_from_slice(b"    Updating registry `x`\n");
    noisy.extend_from_slice(b"  Installing alpha v0.1.0\n");
    noisy.extend_from_slice(b"    Finished dev target(s) in 0.1 secs\n");
    noisy.extend_from_slice(body);
    assert_eq!(cargo_test_result_parser(&noisy), cargo_test_result_parser(body));
}

#[test]
fn error_line_produces_the_synthetic_report() {
    let output = b"error: everything is broken\nand more";
    let expected = vec![Suite {
        name: b"unknown".to_vec(),
        state: Status::Fail,
        passed: 0,
        failed: 1,
        ignored: 0,
        measured: 0,
        total: 1,
        tests: vec![Test {
            name: b"compile failed".to_vec(),
            status: Status::Fail,
            error: Some(b"everything is broken\nand more".to_vec()),
        }],
    }];
    assert_eq!(cargo_test_result_parser(output), Ok(expected));
}

#[test]
fn bracketed_error_code_is_discarded() {
    let output = b"error[E0308]: mismatched types";
    let report = cargo_test_result_parser(output).unwrap();
    assert_eq!(report[0].tests[0].error, Some(b"mismatched types".to_vec()));
}

#[test]
fn unrecognizable_content_is_no_content() {
    assert_eq!(cargo_test_result_parser(b"hello world"), Err(ParseError::NoContent));
    assert_eq!(cargo_test_result_parser(b""), Err(ParseError::NoContent));
}

#[test]
fn broken_suite_block_is_malformed() {
    let output = b"Running x\nrunning 1 tests\ntest a ... ok\n";
    assert_eq!(cargo_test_result_parser(output), Err(ParseError::Malformed));
}

#[test]
fn error_keyword_without_colon_is_malformed() {
    assert_eq!(cargo_test_result_parser(b"error without a colon"), Err(ParseError::Malformed));
}

#[test]
fn digits_stop_at_the_signed_limit() {
    assert_eq!(digits(b"9223372036854775807"), Some((19, 9223372036854775807)));
    assert_eq!(digits(b"9223372036854775808"), None);
    assert_eq!(digits(b"99999999999999999999999"), None);
    assert_eq!(digits(b"  42  "), Some((6, 42)));
    assert_eq!(digits(b"x1"), None);
    assert_eq!(digits(b""), None);
}

#[test]
fn a_non_utf8_capture_fails_the_recognizer() {
    assert_eq!(suite_line(b"Running \xff\xfe\n"), None);
    assert_eq!(test_result(b"test \xff ... ok"), None);
    assert_eq!(cargo_test_result_parser(b"error: \xff\xfe"), Err(ParseError::Malformed));
}

#[test]
fn crlf_line_endings_are_accepted() {
    let output = b"Running x\r\nrunning 1 tests\r\ntest a ... ok\r\ntest result: ok. 1 passed; 0 failed; 0 ignored; 0 measured; 0 filtered out";
    let report = cargo_test_result_parser(output).unwrap();
    assert_eq!(report[0].name, b"x".to_vec());
    assert_eq!(report[0].tests.len(), 1);
}

#[test]
fn doc_tests_header_names_the_crate() {
    let output = b"Doc-tests mycrate\nrunning 0 tests\ntest result: ok. 0 passed; 0 failed; 0 ignored; 0 measured; 0 filtered out";
    let report = cargo_test_result_parser(output).unwrap();
    assert_eq!(report[0].name, b"mycrate".to_vec());
    assert_eq!(report[0].total, 0);
}

#[test]
fn backtrace_note_is_skipped() {
    let output = b"---- a stdout ----\nfirst line\nnote: Run with `RUST_BACKTRACE=1` for a backtrace.\n\n---- b stdout ----\nother line\n\n\n";
    let expected = vec![
        Failure { name: b"a".to_vec(), error: b"first line".to_vec() },
        Failure { name: b"b".to_vec(), error: b"other line".to_vec() },
    ];
    assert_eq!(failures(output), Some((output.len(), expected)));
}

#[test]
fn only_the_first_detail_line_is_kept() {
    let output = b"Running s\nrunning 1 tests\ntest f ... FAILED\nfailures:\n\n---- f stdout ----\nkept line\n\n\nfailures:\n    f\n\ntest result: FAILED. 0 passed; 1 failed; 0 ignored; 0 measured; 0 filtered out";
    let report = cargo_test_result_parser(output).unwrap();
    assert_eq!(report[0].tests[0].error, Some(b"kept line".to_vec()));
}

#[test]
fn summary_with_wrong_label_order_is_refused() {
    let output = b"test result: ok. 1 failed; 0 passed; 0 ignored; 0 measured; 0 filtered out";
    assert_eq!(suite_result(output), None);
}

#[test]
fn suite_keeps_no_partial_result() {
    let output = b"Running x\nrunning 1 tests\ntest a ... ok\ntest result: ok. 1 passed; 0 failed; 0 ignored; 0 measured; 0 filtered\nRunning y";
    assert_eq!(cargo_test_result_parser(output), Err(ParseError::Malformed));
}
