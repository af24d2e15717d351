//! Line-level recognizers: the rest-of-line primitive, literal tags wrapped
//! in whitespace, the build-status (noise) lines, the suite header and
//! count lines, the outcome keywords and decimal numbers.
//!
//! Each specification function takes the remaining input and yields how many
//! bytes the recognizer consumes, with the value it extracts; the executable
//! recognizers are proved to agree with them exactly.
use vstd::prelude::*;
use vstd::slice::slice_subrange;
use vstd::slice::slice_to_vec;
use vstd::utf8::valid_utf8;

use crate::model::Status;
use crate::prim::count_prefix;
use crate::prim::digit_pred;
use crate::prim::digit_run;
use crate::prim::is_digit_byte;
use crate::prim::line_pred;
use crate::prim::line_run;
use crate::prim::match_tag;
use crate::prim::skip_ws;
use crate::prim::spec_tag;
use crate::prim::ws_pred;
use crate::utf8check::is_utf8;

verus! {

broadcast use crate::prim::lemma_count_prefix;

/// A line terminator: a line feed, or a carriage return followed by a line
/// feed.
pub open spec fn spec_line_ending(s: Seq<u8>) -> Option<int> {
    if s.len() >= 1 && s[0] == 10 {
        Some(1)
    } else if s.len() >= 2 && s[0] == 13 && s[1] == 10 {
        Some(2)
    } else {
        None
    }
}

/// The rest-of-line primitive: the bytes up to a required line terminator,
/// which must form valid UTF-8; the terminator is consumed as well.
pub open spec fn spec_rest_of_line(s: Seq<u8>) -> Option<(int, Seq<u8>)> {
    let m = count_prefix(s, line_pred());
    if !valid_utf8(s.take(m)) {
        None
    } else {
        match spec_line_ending(s.skip(m)) {
            Some(k) => Some((m + k, s.take(m))),
            None => None,
        }
    }
}

/// A literal surrounded by the whitespace skip: whitespace, the tag `t`,
/// whitespace again.
pub open spec fn spec_tag_ws(s: Seq<u8>, t: Seq<u8>) -> Option<int> {
    let a = count_prefix(s, ws_pred());
    match spec_tag(s.skip(a), t) {
        Some(n) => Some(a + n + count_prefix(s.skip(a + n), ws_pred())),
        None => None,
    }
}

/// A whole tagged line: the tag in whitespace, then the rest of the line as
/// the extracted content.
pub open spec fn spec_tag_line(s: Seq<u8>, t: Seq<u8>) -> Option<(int, Seq<u8>)> {
    match spec_tag_ws(s, t) {
        Some(n) => match spec_rest_of_line(s.skip(n)) {
            Some((m, c)) => Some((n + m, c)),
            None => None,
        },
        None => None,
    }
}

/// A tagged line whose content is discarded.
pub open spec fn spec_status_line(s: Seq<u8>, t: Seq<u8>) -> Option<int> {
    match spec_tag_line(s, t) {
        Some((n, _)) => Some(n),
        None => None,
    }
}

/// A consumed count answered by `spec_rest_of_line` covers at least the
/// terminator and stays within the input.
pub proof fn lemma_rest_of_line_bounds(s: Seq<u8>)
    ensures
        spec_rest_of_line(s) matches Some((n, c)) ==> 1 <= n <= s.len(),
{
    let m = count_prefix(s, line_pred());
}

/// A consumed count answered by `spec_tag_ws` stays within the input and
/// covers at least the tag.
pub proof fn lemma_tag_ws_bounds(s: Seq<u8>, t: Seq<u8>)
    ensures
        spec_tag_ws(s, t) matches Some(n) ==> t.len() <= n <= s.len(),
{
    let a = count_prefix(s, ws_pred());
}

/// A consumed count answered by `spec_tag_line` is positive and stays
/// within the input.
pub proof fn lemma_tag_line_bounds(s: Seq<u8>, t: Seq<u8>)
    ensures
        spec_tag_line(s, t) matches Some((n, c)) ==> 1 <= n <= s.len(),
{
    lemma_tag_ws_bounds(s, t);
    if let Some(n0) = spec_tag_ws(s, t) {
        lemma_rest_of_line_bounds(s.skip(n0));
    }
}

/// Recognizes a line terminator at the start of `input`.
pub fn line_ending(input: &[u8]) -> (r: Option<usize>)
    ensures
        match r {
            Some(n) => 1 <= n <= input.len() && spec_line_ending(input@) == Some(n as int),
            None => spec_line_ending(input@) is None,
        },
{
    if input.len() >= 1 && input[0] == 10 {
        Some(1)
    } else if input.len() >= 2 && input[0] == 13 && input[1] == 10 {
        Some(2)
    } else {
        None
    }
}

/// Recognizes the rest of the current line: its content, which must be
/// valid UTF-8, and the line terminator that closes it.
pub fn rest_of_line(input: &[u8]) -> (r: Option<(usize, Vec<u8>)>)
    ensures
        match r {
            Some((n, c)) => 1 <= n <= input.len() && spec_rest_of_line(input@) == Some(
                (n as int, c@),
            ),
            None => spec_rest_of_line(input@) is None,
        },
{
    let m = line_run(input);
    let content_slice = slice_subrange(input, 0, m);
    proof {
        assert(content_slice@ =~= input@.take(m as int));
    }
    if !is_utf8(content_slice) {
        return None;
    }
    let rem = slice_subrange(input, m, input.len());
    proof {
        assert(rem@ =~= input@.skip(m as int));
    }
    match line_ending(rem) {
        Some(k) => {
            let c = slice_to_vec(content_slice);
            Some((m + k, c))
        },
        None => None,
    }
}

/// Matches `tag` surrounded by the whitespace skip.
pub fn tag_ws(input: &[u8], tag: &Vec<u8>) -> (r: Option<usize>)
    ensures
        match r {
            Some(n) => tag.len() <= n <= input.len() && spec_tag_ws(input@, tag@) == Some(n as int),
            None => spec_tag_ws(input@, tag@) is None,
        },
{
    let a = skip_ws(input);
    let rem1 = slice_subrange(input, a, input.len());
    proof {
        assert(rem1@ =~= input@.skip(a as int));
    }
    match match_tag(rem1, tag) {
        Some(n) => {
            let rem2 = slice_subrange(input, a + n, input.len());
            proof {
                assert(rem2@ =~= input@.skip(a as int + n as int));
            }
            let b = skip_ws(rem2);
            Some(a + n + b)
        },
        None => None,
    }
}

/// Recognizes one whole line introduced by `tag` and extracts its content.
pub fn tag_line(input: &[u8], tag: &Vec<u8>) -> (r: Option<(usize, Vec<u8>)>)
    ensures
        match r {
            Some((n, c)) => 1 <= n <= input.len() && spec_tag_line(input@, tag@) == Some(
                (n as int, c@),
            ),
            None => spec_tag_line(input@, tag@) is None,
        },
{
    match tag_ws(input, tag) {
        Some(n) => {
            let rem = slice_subrange(input, n, input.len());
            proof {
                assert(rem@ =~= input@.skip(n as int));
            }
            match rest_of_line(rem) {
                Some((m, c)) => Some((n + m, c)),
                None => None,
            }
        },
        None => None,
    }
}

/// Recognizes one whole line introduced by `tag`, discarding its content.
pub fn status_line(input: &[u8], tag: &Vec<u8>) -> (r: Option<usize>)
    ensures
        match r {
            Some(n) => 1 <= n <= input.len() && spec_status_line(input@, tag@) == Some(n as int),
            None => spec_status_line(input@, tag@) is None,
        },
{
    match tag_line(input, tag) {
        Some((n, _)) => Some(n),
        None => None,
    }
}

/// One build-status (noise) line: a resolving, fetching, installing,
/// compiling or build-finished banner, whose content carries nothing.
pub open spec fn spec_noise_line(s: Seq<u8>) -> Option<int> {
    if spec_status_line(s, crate::tags::tag_updating()) is Some {
        spec_status_line(s, crate::tags::tag_updating())
    } else if spec_status_line(s, crate::tags::tag_downloading()) is Some {
        spec_status_line(s, crate::tags::tag_downloading())
    } else if spec_status_line(s, crate::tags::tag_installing()) is Some {
        spec_status_line(s, crate::tags::tag_installing())
    } else if spec_status_line(s, crate::tags::tag_compiling()) is Some {
        spec_status_line(s, crate::tags::tag_compiling())
    } else {
        spec_status_line(s, crate::tags::tag_finished())
    }
}

/// A consumed count answered by `spec_noise_line` is positive and stays
/// within the input.
pub proof fn lemma_noise_line_bounds(s: Seq<u8>)
    ensures
        spec_noise_line(s) matches Some(n) ==> 1 <= n <= s.len(),
{
    lemma_tag_line_bounds(s, crate::tags::tag_updating());
    lemma_tag_line_bounds(s, crate::tags::tag_downloading());
    lemma_tag_line_bounds(s, crate::tags::tag_installing());
    lemma_tag_line_bounds(s, crate::tags::tag_compiling());
    lemma_tag_line_bounds(s, crate::tags::tag_finished());
}

/// How many bytes the preamble skip consumes: noise lines, zero or more, in
/// any order and count.
pub open spec fn spec_skip_noise(s: Seq<u8>) -> int
    decreases s.len(),
{
    match spec_noise_line(s) {
        Some(n) => if 0 < n <= s.len() {
            n + spec_skip_noise(s.skip(n))
        } else {
            0
        },
        None => 0,
    }
}

/// The preamble skip stays within the input.
pub proof fn lemma_skip_noise_bounds(s: Seq<u8>)
    ensures
        0 <= spec_skip_noise(s) <= s.len(),
    decreases s.len(),
{
    if let Some(n) = spec_noise_line(s) {
        if 0 < n <= s.len() {
            lemma_skip_noise_bounds(s.skip(n));
        }
    }
}

/// Recognizes a resolving banner line.
pub fn updating(input: &[u8]) -> (r: Option<usize>)
    ensures
        match r {
            Some(n) => 1 <= n <= input.len() && spec_status_line(input@, crate::tags::tag_updating())
                == Some(n as int),
            None => spec_status_line(input@, crate::tags::tag_updating()) is None,
        },
{
    let t = crate::tags::tag_updating_bytes();
    status_line(input, &t)
}

/// Recognizes a fetching banner line.
pub fn downloading(input: &[u8]) -> (r: Option<usize>)
    ensures
        match r {
            Some(n) => 1 <= n <= input.len() && spec_status_line(
                input@,
                crate::tags::tag_downloading(),
            ) == Some(n as int),
            None => spec_status_line(input@, crate::tags::tag_downloading()) is None,
        },
{
    let t = crate::tags::tag_downloading_bytes();
    status_line(input, &t)
}

/// Recognizes an installing banner line.
pub fn installing(input: &[u8]) -> (r: Option<usize>)
    ensures
        match r {
            Some(n) => 1 <= n <= input.len() && spec_status_line(
                input@,
                crate::tags::tag_installing(),
            ) == Some(n as int),
            None => spec_status_line(input@, crate::tags::tag_installing()) is None,
        },
{
    let t = crate::tags::tag_installing_bytes();
    status_line(input, &t)
}

/// Recognizes a compiling banner line.
pub fn compiling(input: &[u8]) -> (r: Option<usize>)
    ensures
        match r {
            Some(n) => 1 <= n <= input.len() && spec_status_line(
                input@,
                crate::tags::tag_compiling(),
            ) == Some(n as int),
            None => spec_status_line(input@, crate::tags::tag_compiling()) is None,
        },
{
    let t = crate::tags::tag_compiling_bytes();
    status_line(input, &t)
}

/// Recognizes a build-finished banner line.
pub fn finished(input: &[u8]) -> (r: Option<usize>)
    ensures
        match r {
            Some(n) => 1 <= n <= input.len() && spec_status_line(input@, crate::tags::tag_finished())
                == Some(n as int),
            None => spec_status_line(input@, crate::tags::tag_finished()) is None,
        },
{
    let t = crate::tags::tag_finished_bytes();
    status_line(input, &t)
}

/// Recognizes one noise line of any kind.
pub fn noise_line(input: &[u8]) -> (r: Option<usize>)
    ensures
        match r {
            Some(n) => 1 <= n <= input.len() && spec_noise_line(input@) == Some(n as int),
            None => spec_noise_line(input@) is None,
        },
{
    if let Some(n) = updating(input) {
        return Some(n);
    }
    if let Some(n) = downloading(input) {
        return Some(n);
    }
    if let Some(n) = installing(input) {
        return Some(n);
    }
    if let Some(n) = compiling(input) {
        return Some(n);
    }
    finished(input)
}

/// Skips the preamble: zero or more noise lines.
pub fn skip_noise(input: &[u8]) -> (n: usize)
    ensures
        n <= input.len(),
        n as int == spec_skip_noise(input@),
{
    let mut pos: usize = 0;
    let mut go = true;
    proof {
        assert(input@.skip(0) =~= input@);
    }
    while go
        invariant
            pos <= input.len(),
            spec_skip_noise(input@) == pos as int + spec_skip_noise(input@.skip(pos as int)),
            !go ==> spec_skip_noise(input@.skip(pos as int)) == 0,
        decreases input.len() - pos + (if go {
            1int
        } else {
            0int
        }),
    {
        let rem = slice_subrange(input, pos, input.len());
        proof {
            assert(rem@ =~= input@.skip(pos as int));
        }
        match noise_line(rem) {
            Some(n) => {
                proof {
                    assert(input@.skip(pos as int).skip(n as int) =~= input@.skip(
                        pos as int + n as int,
                    ));
                }
                pos = pos + n;
            },
            None => {
                go = false;
            },
        }
    }
    proof {
        lemma_skip_noise_bounds(input@.skip(pos as int));
    }
    pos
}

/// The suite header line: `Running` or `Doc-tests` in whitespace, then the
/// rest of the line as the suite's display name.
pub open spec fn spec_suite_line(s: Seq<u8>) -> Option<(int, Seq<u8>)> {
    if spec_tag_line(s, crate::tags::tag_running()) is Some {
        spec_tag_line(s, crate::tags::tag_running())
    } else {
        spec_tag_line(s, crate::tags::tag_doc_tests())
    }
}


/// Recognizes the suite header line and extracts the display name.
pub fn suite_line(input: &[u8]) -> (r: Option<(usize, Vec<u8>)>)
    ensures
        match r {
            Some((n, c)) => 1 <= n <= input.len() && spec_suite_line(input@) == Some(
                (n as int, c@),
            ),
            None => spec_suite_line(input@) is None,
        },
{
    let t = crate::tags::tag_running_bytes();
    if let Some(r) = tag_line(input, &t) {
        return Some(r);
    }
    let t2 = crate::tags::tag_doc_tests_bytes();
    tag_line(input, &t2)
}

/// The suite count line: `running` in whitespace, rest of line discarded.
/// The declared count is never validated against the test lines.
pub open spec fn spec_suite_count(s: Seq<u8>) -> Option<int> {
    spec_status_line(s, crate::tags::tag_running_lower())
}

/// Recognizes and discards the suite count line.
pub fn suite_count(input: &[u8]) -> (r: Option<usize>)
    ensures
        match r {
            Some(n) => 1 <= n <= input.len() && spec_suite_count(input@) == Some(n as int),
            None => spec_suite_count(input@) is None,
        },
{
    let t = crate::tags::tag_running_lower_bytes();
    status_line(input, &t)
}

/// The outcome keyword: `ok` or `FAILED`.
pub open spec fn spec_ok_or_failed(s: Seq<u8>) -> Option<(int, Status)> {
    match spec_tag(s, crate::tags::tag_ok()) {
        Some(n) => Some((n, Status::Pass)),
        None => match spec_tag(s, crate::tags::tag_failed_upper()) {
            Some(n) => Some((n, Status::Fail)),
            None => None,
        },
    }
}

/// Recognizes the outcome keyword.
pub fn ok_or_failed(input: &[u8]) -> (r: Option<(usize, Status)>)
    ensures
        match r {
            Some((n, st)) => 1 <= n <= input.len() && spec_ok_or_failed(input@) == Some(
                (n as int, st),
            ),
            None => spec_ok_or_failed(input@) is None,
        },
{
    let t = crate::tags::tag_ok_bytes();
    if let Some(n) = match_tag(input, &t) {
        return Some((n, Status::Pass));
    }
    let t2 = crate::tags::tag_failed_upper_bytes();
    match match_tag(input, &t2) {
        Some(n) => Some((n, Status::Fail)),
        None => None,
    }
}

/// The numeric value of a run of ASCII digits.
pub open spec fn digits_val(ds: Seq<u8>) -> int
    decreases ds.len(),
{
    if ds.len() == 0 {
        0
    } else {
        digits_val(ds.drop_last()) * 10 + (ds.last() - 48)
    }
}

/// The value of a digit run is never negative.
pub proof fn lemma_digits_val_nonneg(ds: Seq<u8>)
    requires
        forall|i: int| 0 <= i < ds.len() ==> is_digit_byte(ds[i]),
    ensures
        digits_val(ds) >= 0,
    decreases ds.len(),
{
    if ds.len() > 0 {
        lemma_digits_val_nonneg(ds.drop_last());
    }
}

/// Extending a digit run to the right never shrinks its value.
pub proof fn lemma_digits_val_prefix_le(ds: Seq<u8>, i: int)
    requires
        forall|j: int| 0 <= j < ds.len() ==> is_digit_byte(ds[j]),
        0 <= i <= ds.len(),
    ensures
        digits_val(ds.take(i)) <= digits_val(ds),
    decreases ds.len() - i,
{
    if i == ds.len() {
        assert(ds.take(i) =~= ds);
    } else {
        assert(ds.take(i + 1).drop_last() =~= ds.take(i));
        assert forall|j: int| 0 <= j < ds.take(i).len() implies is_digit_byte(ds.take(i)[j]) by {}
        lemma_digits_val_nonneg(ds.take(i));
        assert(digits_val(ds.take(i + 1)) == digits_val(ds.take(i)) * 10 + (ds.take(i + 1).last()
            - 48));
        lemma_digits_val_prefix_le(ds, i + 1);
    }
}

/// A decimal number: whitespace, one or more digits whose value must fit in
/// a 64-bit signed integer, whitespace again.
pub open spec fn spec_digits(s: Seq<u8>) -> Option<(int, int)> {
    let a = count_prefix(s, ws_pred());
    let d = count_prefix(s.skip(a), digit_pred());
    if d < 1 {
        None
    } else {
        let v = digits_val(s.skip(a).take(d));
        if v > i64::MAX as int {
            None
        } else {
            Some((a + d + count_prefix(s.skip(a + d), ws_pred()), v))
        }
    }
}

/// Recognizes a decimal number surrounded by the whitespace skip.  The
/// recognition fails when the digits name a value beyond the 64-bit signed
/// range, where a 64-bit numeric conversion would refuse them too.
pub fn digits(input: &[u8]) -> (r: Option<(usize, i64)>)
    ensures
        match r {
            Some((n, v)) => 1 <= n <= input.len() && spec_digits(input@) == Some(
                (n as int, v as int),
            ),
            None => spec_digits(input@) is None,
        },
{
    let a = skip_ws(input);
    let rem1 = slice_subrange(input, a, input.len());
    proof {
        assert(rem1@ =~= input@.skip(a as int));
    }
    let d = digit_run(rem1);
    if d < 1 {
        return None;
    }
    let ghost run = rem1@.take(d as int);
    proof {
        assert(run.len() == d);
        assert forall|j: int| 0 <= j < run.len() implies is_digit_byte(run[j]) by {}
    }
    let mut v: i64 = 0;
    let mut i: usize = 0;
    proof {
        assert(run.take(0) =~= Seq::<u8>::empty());
    }
    while i < d
        invariant
            i <= d,
            1 <= d,
            d <= rem1@.len(),
            a <= input.len(),
            a as int == count_prefix(input@, ws_pred()),
            rem1@ == input@.skip(a as int),
            d as int == count_prefix(rem1@, digit_pred()),
            run == rem1@.take(d as int),
            run.len() == d,
            forall|j: int| 0 <= j < run.len() ==> is_digit_byte(run[j]),
            forall|j: int| 0 <= j < d ==> is_digit_byte(rem1@[j]),
            0 <= v,
            v as int == digits_val(run.take(i as int)),
        decreases d - i,
    {
        let dig = rem1[i] - 48;
        proof {
            assert(run.take(i as int + 1).drop_last() =~= run.take(i as int));
            assert(run.take(i as int + 1).last() == rem1@[i as int]);
            assert(digits_val(run.take(i as int + 1)) == (v as int) * 10 + dig as int);
        }
        if v > (i64::MAX - dig as i64) / 10 {
            proof {
                let mi: int = i64::MAX as int - dig as int;
                assert(mi == 10 * (mi / 10) + mi % 10);
                assert((v as int) * 10 + dig as int > i64::MAX as int);
                lemma_digits_val_prefix_le(run, i as int + 1);
                assert(digits_val(run) > i64::MAX as int);
            }
            return None;
        }
        proof {
            let mi: int = i64::MAX as int - dig as int;
            assert(mi == 10 * (mi / 10) + mi % 10);
            assert((v as int) * 10 + dig as int <= i64::MAX as int);
        }
        v = v * 10 + dig as i64;
        i = i + 1;
    }
    let rem2 = slice_subrange(input, a + d, input.len());
    proof {
        assert(rem2@ =~= input@.skip(a as int + d as int));
        assert(run.take(d as int) =~= run);
    }
    let b = skip_ws(rem2);
    Some((a + d + b, v))
}

/// A count answered by `spec_digits` is positive and stays within the
/// input, and the value is never negative.
pub proof fn lemma_digits_props(s: Seq<u8>)
    ensures
        spec_digits(s) matches Some((n, v)) ==> 1 <= n <= s.len() && v >= 0,
{
    let a = count_prefix(s, ws_pred());
    let d = count_prefix(s.skip(a), digit_pred());
    if d >= 1 {
        lemma_digits_val_nonneg(s.skip(a).take(d));
    }
}

} // verus!
