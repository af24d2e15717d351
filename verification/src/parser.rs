//! The suite assembler, the compile-error fallback and the top-level
//! driver: the transcript parser's entry point and the laws that hold of
//! every report it produces.
use vstd::prelude::*;
use vstd::slice::slice_subrange;
use vstd::slice::slice_to_vec;
use vstd::utf8::valid_utf8;

use crate::correlate::handle_parsed_suite;
use crate::correlate::spec_assemble;
use crate::lex::lemma_noise_line_bounds;
use crate::lex::lemma_tag_ws_bounds;
use crate::lex::skip_noise;
use crate::lex::spec_noise_line;
use crate::lex::spec_skip_noise;
use crate::lex::spec_suite_count;
use crate::lex::spec_suite_line;
use crate::lex::spec_tag_ws;
use crate::lex::suite_count;
use crate::lex::suite_line;
use crate::lex::tag_ws;
use crate::model::ParseError;
use crate::model::Status;
use crate::model::Suite;
use crate::model::SuiteV;
use crate::model::Test;
use crate::model::TestV;
use crate::model::suites_view;
use crate::prim::count_prefix;
use crate::prim::lemma_find_some;
use crate::prim::match_tag;
use crate::prim::skip_ws;
use crate::prim::spec_find;
use crate::prim::spec_tag;
use crate::prim::ws_pred;
use crate::recog::fail_section;
use crate::recog::spec_fail_section;
use crate::recog::spec_many0;
use crate::recog::spec_summary;
use crate::recog::spec_test_lines;
use crate::recog::suite_result;
use crate::recog::test_results;
use crate::tags::tag_close_bracket;
use crate::tags::tag_close_bracket_bytes;
use crate::tags::tag_colon;
use crate::tags::tag_colon_bytes;
use crate::tags::tag_compile_failed;
use crate::tags::tag_compile_failed_bytes;
use crate::tags::tag_error;
use crate::tags::tag_error_bytes;
use crate::tags::tag_open_bracket;
use crate::tags::tag_open_bracket_bytes;
use crate::tags::tag_unknown;
use crate::tags::tag_unknown_bytes;
use crate::prim::find_sub;
use crate::utf8check::is_utf8;

verus! {

broadcast use crate::prim::lemma_count_prefix;

/// One complete suite block: the header, the count line, the test lines,
/// the optional failures section and the summary, in that fixed order, all
/// required; the suite combines the header name, the summary aggregates
/// and the correlated tests.
pub open spec fn spec_suite(s: Seq<u8>) -> Option<(int, SuiteV)> {
    match spec_suite_line(s) {
        Some((n0, name)) => match spec_suite_count(s.skip(n0)) {
            Some(n1) => {
                let p = n0 + n1;
                let tr = spec_test_lines(s.skip(p));
                let q = p + tr.0;
                let fr = spec_fail_section(s.skip(q));
                let r = q + fr.0;
                match spec_summary(s.skip(r)) {
                    Some((n2, sr)) => Some((r + n2, spec_assemble(name, tr.1, fr.1, sr))),
                    None => None,
                }
            },
            None => None,
        },
        None => None,
    }
}
/// Recognizes one complete suite block.
pub fn suite_parser(input: &[u8]) -> (r: Option<(usize, Suite)>)
    ensures
        match r {
            Some((n, su)) => 1 <= n <= input.len() && spec_suite(input@) == Some((n as int, su@)),
            None => spec_suite(input@) is None,
        },
{
    let (n0, name) = match suite_line(input) {
        Some(r) => r,
        None => {
            return None;
        },
    };
    let rem0 = slice_subrange(input, n0, input.len());
    proof {
        assert(rem0@ =~= input@.skip(n0 as int));
    }
    let n1 = match suite_count(rem0) {
        Some(n) => n,
        None => {
            return None;
        },
    };
    let p = n0 + n1;
    let remp = slice_subrange(input, p, input.len());
    proof {
        assert(remp@ =~= input@.skip(p as int));
    }
    let (nt, tests) = test_results(remp);
    let q = p + nt;
    let remq = slice_subrange(input, q, input.len());
    proof {
        assert(remq@ =~= input@.skip(q as int));
    }
    let (nf, fails) = fail_section(remq);
    let rr = q + nf;
    let remr = slice_subrange(input, rr, input.len());
    proof {
        assert(remr@ =~= input@.skip(rr as int));
    }
    let (n2, sr) = match suite_result(remr) {
        Some(x) => x,
        None => {
            return None;
        },
    };
    let su = handle_parsed_suite(name, tests, fails, sr);
    Some((rr + n2, su))
}

/// The suite repetition as a predicate for `spec_many0`.
pub open spec fn suite_p() -> spec_fn(Seq<u8>) -> Option<(int, SuiteV)> {
    |s: Seq<u8>| spec_suite(s)
}

/// The consumed count and extracted suites of the repetition.
pub open spec fn spec_suites_list(s: Seq<u8>) -> (int, Seq<SuiteV>) {
    spec_many0(s, suite_p())
}

/// One or more suite blocks: the repetition, required to be nonempty.
pub open spec fn spec_suites(s: Seq<u8>) -> Option<(int, Seq<SuiteV>)> {
    let r = spec_suites_list(s);
    if r.1.len() == 0 {
        None
    } else {
        Some(r)
    }
}

/// Recognizes one or more consecutive suite blocks, in transcript order.
pub fn suites_parser(input: &[u8]) -> (r: Option<(usize, Vec<Suite>)>)
    ensures
        match r {
            Some((n, v)) => n <= input.len() && spec_suites(input@) == Some(
                (n as int, suites_view(v@)),
            ),
            None => spec_suites(input@) is None,
        },
{
    let mut pos: usize = 0;
    let mut acc: Vec<Suite> = Vec::new();
    let mut go = true;
    proof {
        assert(input@.skip(0) =~= input@);
        assert(suites_view(acc@) =~= Seq::<SuiteV>::empty());
    }
    while go
        invariant
            pos <= input.len(),
            acc.len() as int == suites_view(acc@).len(),
            spec_suites_list(input@).0 == pos as int + spec_suites_list(input@.skip(pos as int)).0,
            spec_suites_list(input@).1 == suites_view(acc@) + spec_suites_list(
                input@.skip(pos as int),
            ).1,
            !go ==> spec_suite(input@.skip(pos as int)) is None,
        decreases input.len() - pos + (if go {
            1int
        } else {
            0int
        }),
    {
        let rem = slice_subrange(input, pos, input.len());
        proof {
            assert(rem@ =~= input@.skip(pos as int));
        }
        match suite_parser(rem) {
            Some((n, su)) => {
                let ghost acc0 = acc@;
                let ghost tail = spec_suites_list(input@.skip(pos as int + n as int)).1;
                proof {
                    assert(input@.skip(pos as int).skip(n as int) =~= input@.skip(
                        pos as int + n as int,
                    ));
                }
                acc.push(su);
                proof {
                    assert(suites_view(acc@) =~= suites_view(acc0) + seq![su@]);
                    assert((suites_view(acc0) + seq![su@]) + tail =~= suites_view(acc0) + (
                    seq![su@] + tail));
                }
                pos = pos + n;
            },
            None => {
                go = false;
            },
        }
    }
    proof {
        assert(spec_suites_list(input@.skip(pos as int)).1 =~= Seq::<SuiteV>::empty());
        assert(suites_view(acc@) + Seq::<SuiteV>::empty() =~= suites_view(acc@));
    }
    if acc.len() == 0 {
        return None;
    }
    Some((pos, acc))
}

/// How many bytes the optional bracketed error-code annotation consumes:
/// the opening bracket through the closing bracket when both are present,
/// and nothing otherwise.
pub open spec fn spec_error_code(s: Seq<u8>) -> int {
    match spec_tag(s, tag_open_bracket()) {
        Some(n) => match spec_find(s.skip(n), tag_close_bracket()) {
            Some(k) => n + k + 1,
            None => 0,
        },
        None => 0,
    }
}

/// The error-code annotation stays within the input.
pub proof fn lemma_error_code_bounds(s: Seq<u8>)
    ensures
        0 <= spec_error_code(s) <= s.len(),
{
    if let Some(n) = spec_tag(s, tag_open_bracket()) {
        lemma_find_some(s.skip(n), tag_close_bracket());
    }
}

/// The single synthetic suite of a fatal-error transcript: the placeholder
/// suite name, one failed test under the fixed placeholder name, the whole
/// remaining error text as its message, and aggregates naming exactly that
/// one failure.
pub open spec fn spec_synthetic_suite(msg: Seq<u8>) -> SuiteV {
    SuiteV {
        name: tag_unknown(),
        state: Status::Fail,
        passed: 0,
        failed: 1,
        ignored: 0,
        measured: 0,
        total: 1,
        tests: seq![TestV { name: tag_compile_failed(), status: Status::Fail, error: Some(msg) }],
    }
}

/// The compile-error fallback: the error keyword in whitespace, an
/// optional bracketed code, a colon in whitespace, then the entire
/// remainder of the buffer, which must be valid UTF-8, captured verbatim
/// as the message of one synthetic suite.
pub open spec fn spec_compile_error(s: Seq<u8>) -> Option<(int, Seq<SuiteV>)> {
    match spec_tag_ws(s, tag_error()) {
        Some(n0) => {
            let nb = spec_error_code(s.skip(n0));
            let p = n0 + nb;
            let a = count_prefix(s.skip(p), ws_pred());
            match spec_tag(s.skip(p + a), tag_colon()) {
                Some(nc) => {
                    let b = count_prefix(s.skip(p + a + nc), ws_pred());
                    let msg = s.skip(p + a + nc + b);
                    if !valid_utf8(msg) {
                        None
                    } else {
                        Some((s.len() as int, seq![spec_synthetic_suite(msg)]))
                    }
                },
                None => None,
            }
        },
        None => None,
    }
}

/// Recognizes the compile-error fallback and synthesizes its report.
pub fn compile_fallback(input: &[u8]) -> (r: Option<(usize, Vec<Suite>)>)
    ensures
        match r {
            Some((n, v)) => n == input.len() && spec_compile_error(input@) == Some(
                (n as int, suites_view(v@)),
            ),
            None => spec_compile_error(input@) is None,
        },
{
    let t_error = tag_error_bytes();
    let n0 = match tag_ws(input, &t_error) {
        Some(n) => n,
        None => {
            return None;
        },
    };
    let rem0 = slice_subrange(input, n0, input.len());
    proof {
        assert(rem0@ =~= input@.skip(n0 as int));
    }
    let t_open = tag_open_bracket_bytes();
    let nb: usize = match match_tag(rem0, &t_open) {
        Some(n) => {
            let rem_in = slice_subrange(input, n0 + n, input.len());
            proof {
                assert(rem_in@ =~= input@.skip(n0 as int + n as int));
                assert(rem_in@ =~= input@.skip(n0 as int).skip(n as int));
            }
            let t_close = tag_close_bracket_bytes();
            match find_sub(rem_in, &t_close) {
                Some(k) => n + k + 1,
                None => 0,
            }
        },
        None => 0,
    };
    let p = n0 + nb;
    let remp = slice_subrange(input, p, input.len());
    proof {
        assert(remp@ =~= input@.skip(p as int));
    }
    let a = skip_ws(remp);
    let rempa = slice_subrange(input, p + a, input.len());
    proof {
        assert(rempa@ =~= input@.skip(p as int + a as int));
    }
    let t_colon = tag_colon_bytes();
    let nc = match match_tag(rempa, &t_colon) {
        Some(n) => n,
        None => {
            return None;
        },
    };
    let rempc = slice_subrange(input, p + a + nc, input.len());
    proof {
        assert(rempc@ =~= input@.skip(p as int + a as int + nc as int));
    }
    let b = skip_ws(rempc);
    let msg_slice = slice_subrange(input, p + a + nc + b, input.len());
    proof {
        assert(msg_slice@ =~= input@.skip(p as int + a as int + nc as int + b as int));
    }
    if !is_utf8(msg_slice) {
        return None;
    }
    let msg = slice_to_vec(msg_slice);
    let name = tag_unknown_bytes();
    let test_name = tag_compile_failed_bytes();
    let mut tests: Vec<Test> = Vec::new();
    tests.push(Test { name: test_name, status: Status::Fail, error: Some(msg) });
    let mut suites: Vec<Suite> = Vec::new();
    suites.push(
        Suite {
            name: name,
            state: Status::Fail,
            passed: 0,
            failed: 1,
            ignored: 0,
            measured: 0,
            total: 1,
            tests: tests,
        },
    );
    proof {
        let msgv = input@.skip(p as int + a as int + nc as int + b as int);
        assert(suites@[0]@.tests =~= seq![
            TestV { name: tag_compile_failed(), status: Status::Fail, error: Some(msgv) },
        ]);
        assert(suites@[0]@ == spec_synthetic_suite(msgv));
        assert(suites_view(suites@) =~= seq![spec_synthetic_suite(msgv)]);
    }
    Some((input.len(), suites))
}

/// The whole transcript: the noise preamble is skipped exactly once, then
/// one or more suites form the report; with no suite at all, a recognized
/// fatal-error block forms a one-suite report; otherwise the parse fails,
/// telling a transcript where a suite header or the error keyword was
/// recognized (malformed) apart from one where nothing was.
pub open spec fn spec_parse(s: Seq<u8>) -> Result<Seq<SuiteV>, ParseError> {
    let rest = s.skip(spec_skip_noise(s));
    match spec_suites(rest) {
        Some((n, suites)) => Ok(suites),
        None => match spec_compile_error(rest) {
            Some((n, suites)) => Ok(suites),
            None => if spec_suite_line(rest) is Some || spec_tag_ws(rest, tag_error()) is Some {
                Err(ParseError::Malformed)
            } else {
                Err(ParseError::NoContent)
            },
        },
    }
}

/// The aggregate invariant carried over to the runtime suites of a report.
proof fn lemma_ok_totals(s: Seq<u8>, suites: Seq<Suite>)
    requires
        spec_parse(s) == Ok::<Seq<SuiteV>, ParseError>(suites_view(suites)),
    ensures
        forall|i: int|
            0 <= i < suites.len() ==> (#[trigger] suites[i]@).total == suites[i]@.passed
                + suites[i]@.failed + suites[i]@.ignored,
{
    lemma_report_totals(s);
    assert forall|i: int|
        0 <= i < suites.len() implies (#[trigger] suites[i]@).total == suites[i]@.passed
        + suites[i]@.failed + suites[i]@.ignored by {
        assert(suites_view(suites)[i] == suites[i]@);
        assert(suites_view(suites)[i].total == suites_view(suites)[i].passed + suites_view(
            suites,
        )[i].failed + suites_view(suites)[i].ignored);
    }
}

/// Parses one complete transcript into its report.  Every suite of the
/// report satisfies the aggregate invariant: its total is exactly the sum
/// of its passed, failed and ignored counts.
#[verifier::rlimit(100)]
pub fn cargo_test_result_parser(input: &[u8]) -> (r: Result<Vec<Suite>, ParseError>)
    ensures
        match r {
            Ok(v) => spec_parse(input@) == Ok::<Seq<SuiteV>, ParseError>(suites_view(v@)),
            Err(e) => spec_parse(input@) == Err::<Seq<SuiteV>, ParseError>(e),
        },
        r matches Ok(v) ==> forall|i: int|
            0 <= i < v@.len() ==> (#[trigger] v@[i]@).total == v@[i]@.passed + v@[i]@.failed
                + v@[i]@.ignored,
{
    let n = skip_noise(input);
    let rest = slice_subrange(input, n, input.len());
    proof {
        assert(rest@ =~= input@.skip(n as int));
    }
    match suites_parser(rest) {
        Some((_, suites)) => {
            proof {
                lemma_ok_totals(input@, suites@);
            }
            Ok(suites)
        },
        None => match compile_fallback(rest) {
            Some((_, suites)) => {
                proof {
                    lemma_ok_totals(input@, suites@);
                }
                Ok(suites)
            },
            None => {
                let header = suite_line(rest);
                let t_error = tag_error_bytes();
                let errk = tag_ws(rest, &t_error);
                match (header, errk) {
                    (None, None) => Err(ParseError::NoContent),
                    _ => Err(ParseError::Malformed),
                }
            },
        },
    }
}

/// Every suite of a parsed report satisfies the aggregate invariant: its
/// total is exactly the sum of its passed, failed and ignored counts.
pub proof fn lemma_suite_total(s: Seq<u8>)
    ensures
        spec_suite(s) matches Some((n, su)) ==> su.total == su.passed + su.failed + su.ignored,
{
}

/// Every suite of the suite repetition satisfies the aggregate invariant.
pub proof fn lemma_suites_list_totals(s: Seq<u8>)
    ensures
        forall|i: int|
            0 <= i < spec_suites_list(s).1.len() ==> (#[trigger] spec_suites_list(s).1[i]).total
                == spec_suites_list(s).1[i].passed + spec_suites_list(s).1[i].failed
                + spec_suites_list(s).1[i].ignored,
    decreases s.len(),
{
    lemma_suite_total(s);
    if let Some((n, su)) = spec_suite(s) {
        if 0 < n <= s.len() {
            lemma_suites_list_totals(s.skip(n));
        }
    }
}

/// For every parsed report, each suite's total equals the sum of its
/// passed, failed and ignored counts, exactly.
pub proof fn lemma_report_totals(s: Seq<u8>)
    ensures
        spec_parse(s) matches Ok(suites) ==> forall|i: int|
            0 <= i < suites.len() ==> (#[trigger] suites[i]).total == suites[i].passed
                + suites[i].failed + suites[i].ignored,
{
    let rest = s.skip(spec_skip_noise(s));
    lemma_suites_list_totals(rest);
}

/// A transcript with no recognizable suite and a recognized fatal-error
/// block produces a report of exactly one synthetic suite: the placeholder
/// suite name, one test under the fixed placeholder name, `failed` one and
/// `total` one, whose message is the transcript's own trailing text — the
/// suffix that follows the error keyword, its optional bracketed code, the
/// colon and the whitespace after it.
pub proof fn lemma_compile_error_fallback(s: Seq<u8>, n: int, suites: Seq<SuiteV>)
    requires
        spec_suites(s.skip(spec_skip_noise(s))) is None,
        spec_compile_error(s.skip(spec_skip_noise(s))) == Some((n, suites)),
    ensures
        spec_parse(s) == Ok::<Seq<SuiteV>, ParseError>(suites),
        suites.len() == 1,
        suites[0].name == tag_unknown(),
        suites[0].state is Fail,
        suites[0].passed == 0,
        suites[0].failed == 1,
        suites[0].ignored == 0,
        suites[0].measured == 0,
        suites[0].total == 1,
        suites[0].tests.len() == 1,
        suites[0].tests[0].name == tag_compile_failed(),
        suites[0].tests[0].status is Fail,
        suites[0].tests[0].error matches Some(msg) && msg == s.skip(s.len() - msg.len()),
{
    let rest = s.skip(spec_skip_noise(s));
    crate::lex::lemma_skip_noise_bounds(s);
    if let Some(n0) = spec_tag_ws(rest, tag_error()) {
        let nb = spec_error_code(rest.skip(n0));
        let p = n0 + nb;
        let a = count_prefix(rest.skip(p), ws_pred());
        if let Some(nc) = spec_tag(rest.skip(p + a), tag_colon()) {
            let b = count_prefix(rest.skip(p + a + nc), ws_pred());
            let msg = rest.skip(p + a + nc + b);
            lemma_tag_ws_bounds(rest, tag_error());
            lemma_error_code_bounds(rest.skip(n0));
            assert(rest.skip(p + a + nc + b) =~= s.skip(
                spec_skip_noise(s) + p + a + nc + b,
            ));
            assert(msg == s.skip(s.len() - msg.len()));
        }
    }
}

/// A recognized noise line before the content neither appears in nor
/// affects the report: the parse of the whole transcript equals the parse
/// of the transcript with that line removed.  Applied repeatedly, noise
/// lines in any count and order before the first suite leave the report
/// unchanged.
#[verifier::rlimit(100)]
pub proof fn lemma_noise_invariance(s: Seq<u8>, n: int)
    requires
        spec_noise_line(s) == Some(n),
    ensures
        spec_parse(s) == spec_parse(s.skip(n)),
{
    lemma_noise_line_bounds(s);
    crate::lex::lemma_skip_noise_bounds(s.skip(n));
    assert(spec_skip_noise(s) == n + spec_skip_noise(s.skip(n)));
    assert(s.skip(spec_skip_noise(s)) =~= s.skip(n).skip(spec_skip_noise(s.skip(n))));
}


} // verus!
