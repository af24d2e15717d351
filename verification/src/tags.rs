//! The literal byte sequences of the transcript grammar: each one as a
//! specification-level sequence and as a runtime value proved equal to it.
use vstd::prelude::*;

verus! {

/// The bytes of the literal `Updating`.
pub open spec fn tag_updating() -> Seq<u8> {
    seq!['U' as u8, 'p' as u8, 'd' as u8, 'a' as u8, 't' as u8, 'i' as u8, 'n' as u8, 'g' as u8]
}
/// The bytes of the literal `Updating`, as a runtime value.
pub fn tag_updating_bytes() -> (v: Vec<u8>)
    ensures
        v@ == tag_updating(),
{
    let mut v: Vec<u8> = Vec::new();
    v.push('U' as u8);
    v.push('p' as u8);
    v.push('d' as u8);
    v.push('a' as u8);
    v.push('t' as u8);
    v.push('i' as u8);
    v.push('n' as u8);
    v.push('g' as u8);
    proof {
        assert(v@ =~= tag_updating());
    }
    v
}

/// The bytes of the literal `Downloading`.
pub open spec fn tag_downloading() -> Seq<u8> {
    seq!['D' as u8, 'o' as u8, 'w' as u8, 'n' as u8, 'l' as u8, 'o' as u8, 'a' as u8, 'd' as u8, 'i' as u8, 'n' as u8, 'g' as u8]
}
/// The bytes of the literal `Downloading`, as a runtime value.
pub fn tag_downloading_bytes() -> (v: Vec<u8>)
    ensures
        v@ == tag_downloading(),
{
    let mut v: Vec<u8> = Vec::new();
    v.push('D' as u8);
    v.push('o' as u8);
    v.push('w' as u8);
    v.push('n' as u8);
    v.push('l' as u8);
    v.push('o' as u8);
    v.push('a' as u8);
    v.push('d' as u8);
    v.push('i' as u8);
    v.push('n' as u8);
    v.push('g' as u8);
    proof {
        assert(v@ =~= tag_downloading());
    }
    v
}

/// The bytes of the literal `Installing`.
pub open spec fn tag_installing() -> Seq<u8> {
    seq!['I' as u8, 'n' as u8, 's' as u8, 't' as u8, 'a' as u8, 'l' as u8, 'l' as u8, 'i' as u8, 'n' as u8, 'g' as u8]
}
/// The bytes of the literal `Installing`, as a runtime value.
pub fn tag_installing_bytes() -> (v: Vec<u8>)
    ensures
        v@ == tag_installing(),
{
    let mut v: Vec<u8> = Vec::new();
    v.push('I' as u8);
    v.push('n' as u8);
    v.push('s' as u8);
    v.push('t' as u8);
    v.push('a' as u8);
    v.push('l' as u8);
    v.push('l' as u8);
    v.push('i' as u8);
    v.push('n' as u8);
    v.push('g' as u8);
    proof {
        assert(v@ =~= tag_installing());
    }
    v
}

/// The bytes of the literal `Compiling`.
pub open spec fn tag_compiling() -> Seq<u8> {
    seq!['C' as u8, 'o' as u8, 'm' as u8, 'p' as u8, 'i' as u8, 'l' as u8, 'i' as u8, 'n' as u8, 'g' as u8]
}
/// The bytes of the literal `Compiling`, as a runtime value.
pub fn tag_compiling_bytes() -> (v: Vec<u8>)
    ensures
        v@ == tag_compiling(),
{
    let mut v: Vec<u8> = Vec::new();
    v.push('C' as u8);
    v.push('o' as u8);
    v.push('m' as u8);
    v.push('p' as u8);
    v.push('i' as u8);
    v.push('l' as u8);
    v.push('i' as u8);
    v.push('n' as u8);
    v.push('g' as u8);
    proof {
        assert(v@ =~= tag_compiling());
    }
    v
}

/// The bytes of the literal `Finished`.
pub open spec fn tag_finished() -> Seq<u8> {
    seq!['F' as u8, 'i' as u8, 'n' as u8, 'i' as u8, 's' as u8, 'h' as u8, 'e' as u8, 'd' as u8]
}
/// The bytes of the literal `Finished`, as a runtime value.
pub fn tag_finished_bytes() -> (v: Vec<u8>)
    ensures
        v@ == tag_finished(),
{
    let mut v: Vec<u8> = Vec::new();
    v.push('F' as u8);
    v.push('i' as u8);
    v.push('n' as u8);
    v.push('i' as u8);
    v.push('s' as u8);
    v.push('h' as u8);
    v.push('e' as u8);
    v.push('d' as u8);
    proof {
        assert(v@ =~= tag_finished());
    }
    v
}

/// The bytes of the literal `Running`.
pub open spec fn tag_running() -> Seq<u8> {
    seq!['R' as u8, 'u' as u8, 'n' as u8, 'n' as u8, 'i' as u8, 'n' as u8, 'g' as u8]
}
/// The bytes of the literal `Running`, as a runtime value.
pub fn tag_running_bytes() -> (v: Vec<u8>)
    ensures
        v@ == tag_running(),
{
    let mut v: Vec<u8> = Vec::new();
    v.push('R' as u8);
    v.push('u' as u8);
    v.push('n' as u8);
    v.push('n' as u8);
    v.push('i' as u8);
    v.push('n' as u8);
    v.push('g' as u8);
    proof {
        assert(v@ =~= tag_running());
    }
    v
}

/// The bytes of the literal `Doc-tests`.
pub open spec fn tag_doc_tests() -> Seq<u8> {
    seq!['D' as u8, 'o' as u8, 'c' as u8, '-' as u8, 't' as u8, 'e' as u8, 's' as u8, 't' as u8, 's' as u8]
}
/// The bytes of the literal `Doc-tests`, as a runtime value.
pub fn tag_doc_tests_bytes() -> (v: Vec<u8>)
    ensures
        v@ == tag_doc_tests(),
{
    let mut v: Vec<u8> = Vec::new();
    v.push('D' as u8);
    v.push('o' as u8);
    v.push('c' as u8);
    v.push('-' as u8);
    v.push('t' as u8);
    v.push('e' as u8);
    v.push('s' as u8);
    v.push('t' as u8);
    v.push('s' as u8);
    proof {
        assert(v@ =~= tag_doc_tests());
    }
    v
}

/// The bytes of the literal `running`.
pub open spec fn tag_running_lower() -> Seq<u8> {
    seq!['r' as u8, 'u' as u8, 'n' as u8, 'n' as u8, 'i' as u8, 'n' as u8, 'g' as u8]
}
/// The bytes of the literal `running`, as a runtime value.
pub fn tag_running_lower_bytes() -> (v: Vec<u8>)
    ensures
        v@ == tag_running_lower(),
{
    let mut v: Vec<u8> = Vec::new();
    v.push('r' as u8);
    v.push('u' as u8);
    v.push('n' as u8);
    v.push('n' as u8);
    v.push('i' as u8);
    v.push('n' as u8);
    v.push('g' as u8);
    proof {
        assert(v@ =~= tag_running_lower());
    }
    v
}

/// The bytes of the literal `ok`.
pub open spec fn tag_ok() -> Seq<u8> {
    seq!['o' as u8, 'k' as u8]
}
/// The bytes of the literal `ok`, as a runtime value.
pub fn tag_ok_bytes() -> (v: Vec<u8>)
    ensures
        v@ == tag_ok(),
{
    let mut v: Vec<u8> = Vec::new();
    v.push('o' as u8);
    v.push('k' as u8);
    proof {
        assert(v@ =~= tag_ok());
    }
    v
}

/// The bytes of the literal `FAILED`.
pub open spec fn tag_failed_upper() -> Seq<u8> {
    seq!['F' as u8, 'A' as u8, 'I' as u8, 'L' as u8, 'E' as u8, 'D' as u8]
}
/// The bytes of the literal `FAILED`, as a runtime value.
pub fn tag_failed_upper_bytes() -> (v: Vec<u8>)
    ensures
        v@ == tag_failed_upper(),
{
    let mut v: Vec<u8> = Vec::new();
    v.push('F' as u8);
    v.push('A' as u8);
    v.push('I' as u8);
    v.push('L' as u8);
    v.push('E' as u8);
    v.push('D' as u8);
    proof {
        assert(v@ =~= tag_failed_upper());
    }
    v
}

/// The bytes of the literal `test`.
pub open spec fn tag_test() -> Seq<u8> {
    seq!['t' as u8, 'e' as u8, 's' as u8, 't' as u8]
}
/// The bytes of the literal `test`, as a runtime value.
pub fn tag_test_bytes() -> (v: Vec<u8>)
    ensures
        v@ == tag_test(),
{
    let mut v: Vec<u8> = Vec::new();
    v.push('t' as u8);
    v.push('e' as u8);
    v.push('s' as u8);
    v.push('t' as u8);
    proof {
        assert(v@ =~= tag_test());
    }
    v
}

/// The bytes of the literal ` ...`.
pub open spec fn tag_name_end() -> Seq<u8> {
    seq![' ' as u8, '.' as u8, '.' as u8, '.' as u8]
}
/// The bytes of the literal ` ...`, as a runtime value.
pub fn tag_name_end_bytes() -> (v: Vec<u8>)
    ensures
        v@ == tag_name_end(),
{
    let mut v: Vec<u8> = Vec::new();
    v.push(' ' as u8);
    v.push('.' as u8);
    v.push('.' as u8);
    v.push('.' as u8);
    proof {
        assert(v@ =~= tag_name_end());
    }
    v
}

/// The bytes of the literal `test result: `.
pub open spec fn tag_test_result() -> Seq<u8> {
    seq!['t' as u8, 'e' as u8, 's' as u8, 't' as u8, ' ' as u8, 'r' as u8, 'e' as u8, 's' as u8, 'u' as u8, 'l' as u8, 't' as u8, ':' as u8, ' ' as u8]
}
/// The bytes of the literal `test result: `, as a runtime value.
pub fn tag_test_result_bytes() -> (v: Vec<u8>)
    ensures
        v@ == tag_test_result(),
{
    let mut v: Vec<u8> = Vec::new();
    v.push('t' as u8);
    v.push('e' as u8);
    v.push('s' as u8);
    v.push('t' as u8);
    v.push(' ' as u8);
    v.push('r' as u8);
    v.push('e' as u8);
    v.push('s' as u8);
    v.push('u' as u8);
    v.push('l' as u8);
    v.push('t' as u8);
    v.push(':' as u8);
    v.push(' ' as u8);
    proof {
        assert(v@ =~= tag_test_result());
    }
    v
}

/// The bytes of the literal `.`.
pub open spec fn tag_dot() -> Seq<u8> {
    seq!['.' as u8]
}
/// The bytes of the literal `.`, as a runtime value.
pub fn tag_dot_bytes() -> (v: Vec<u8>)
    ensures
        v@ == tag_dot(),
{
    let mut v: Vec<u8> = Vec::new();
    v.push('.' as u8);
    proof {
        assert(v@ =~= tag_dot());
    }
    v
}

/// The bytes of the literal `passed;`.
pub open spec fn tag_passed() -> Seq<u8> {
    seq!['p' as u8, 'a' as u8, 's' as u8, 's' as u8, 'e' as u8, 'd' as u8, ';' as u8]
}
/// The bytes of the literal `passed;`, as a runtime value.
pub fn tag_passed_bytes() -> (v: Vec<u8>)
    ensures
        v@ == tag_passed(),
{
    let mut v: Vec<u8> = Vec::new();
    v.push('p' as u8);
    v.push('a' as u8);
    v.push('s' as u8);
    v.push('s' as u8);
    v.push('e' as u8);
    v.push('d' as u8);
    v.push(';' as u8);
    proof {
        assert(v@ =~= tag_passed());
    }
    v
}

/// The bytes of the literal `failed;`.
pub open spec fn tag_failed_count() -> Seq<u8> {
    seq!['f' as u8, 'a' as u8, 'i' as u8, 'l' as u8, 'e' as u8, 'd' as u8, ';' as u8]
}
/// The bytes of the literal `failed;`, as a runtime value.
pub fn tag_failed_count_bytes() -> (v: Vec<u8>)
    ensures
        v@ == tag_failed_count(),
{
    let mut v: Vec<u8> = Vec::new();
    v.push('f' as u8);
    v.push('a' as u8);
    v.push('i' as u8);
    v.push('l' as u8);
    v.push('e' as u8);
    v.push('d' as u8);
    v.push(';' as u8);
    proof {
        assert(v@ =~= tag_failed_count());
    }
    v
}

/// The bytes of the literal `ignored;`.
pub open spec fn tag_ignored() -> Seq<u8> {
    seq!['i' as u8, 'g' as u8, 'n' as u8, 'o' as u8, 'r' as u8, 'e' as u8, 'd' as u8, ';' as u8]
}
/// The bytes of the literal `ignored;`, as a runtime value.
pub fn tag_ignored_bytes() -> (v: Vec<u8>)
    ensures
        v@ == tag_ignored(),
{
    let mut v: Vec<u8> = Vec::new();
    v.push('i' as u8);
    v.push('g' as u8);
    v.push('n' as u8);
    v.push('o' as u8);
    v.push('r' as u8);
    v.push('e' as u8);
    v.push('d' as u8);
    v.push(';' as u8);
    proof {
        assert(v@ =~= tag_ignored());
    }
    v
}

/// The bytes of the literal `measured;`.
pub open spec fn tag_measured() -> Seq<u8> {
    seq!['m' as u8, 'e' as u8, 'a' as u8, 's' as u8, 'u' as u8, 'r' as u8, 'e' as u8, 'd' as u8, ';' as u8]
}
/// The bytes of the literal `measured;`, as a runtime value.
pub fn tag_measured_bytes() -> (v: Vec<u8>)
    ensures
        v@ == tag_measured(),
{
    let mut v: Vec<u8> = Vec::new();
    v.push('m' as u8);
    v.push('e' as u8);
    v.push('a' as u8);
    v.push('s' as u8);
    v.push('u' as u8);
    v.push('r' as u8);
    v.push('e' as u8);
    v.push('d' as u8);
    v.push(';' as u8);
    proof {
        assert(v@ =~= tag_measured());
    }
    v
}

/// The bytes of the literal `filtered out`.
pub open spec fn tag_filtered_out() -> Seq<u8> {
    seq!['f' as u8, 'i' as u8, 'l' as u8, 't' as u8, 'e' as u8, 'r' as u8, 'e' as u8, 'd' as u8, ' ' as u8, 'o' as u8, 'u' as u8, 't' as u8]
}
/// The bytes of the literal `filtered out`, as a runtime value.
pub fn tag_filtered_out_bytes() -> (v: Vec<u8>)
    ensures
        v@ == tag_filtered_out(),
{
    let mut v: Vec<u8> = Vec::new();
    v.push('f' as u8);
    v.push('i' as u8);
    v.push('l' as u8);
    v.push('t' as u8);
    v.push('e' as u8);
    v.push('r' as u8);
    v.push('e' as u8);
    v.push('d' as u8);
    v.push(' ' as u8);
    v.push('o' as u8);
    v.push('u' as u8);
    v.push('t' as u8);
    proof {
        assert(v@ =~= tag_filtered_out());
    }
    v
}

/// The bytes of the literal `----`.
pub open spec fn tag_dashes() -> Seq<u8> {
    seq!['-' as u8, '-' as u8, '-' as u8, '-' as u8]
}
/// The bytes of the literal `----`, as a runtime value.
pub fn tag_dashes_bytes() -> (v: Vec<u8>)
    ensures
        v@ == tag_dashes(),
{
    let mut v: Vec<u8> = Vec::new();
    v.push('-' as u8);
    v.push('-' as u8);
    v.push('-' as u8);
    v.push('-' as u8);
    proof {
        assert(v@ =~= tag_dashes());
    }
    v
}

/// The bytes of the literal `stdout`.
pub open spec fn tag_stdout() -> Seq<u8> {
    seq!['s' as u8, 't' as u8, 'd' as u8, 'o' as u8, 'u' as u8, 't' as u8]
}
/// The bytes of the literal `stdout`, as a runtime value.
pub fn tag_stdout_bytes() -> (v: Vec<u8>)
    ensures
        v@ == tag_stdout(),
{
    let mut v: Vec<u8> = Vec::new();
    v.push('s' as u8);
    v.push('t' as u8);
    v.push('d' as u8);
    v.push('o' as u8);
    v.push('u' as u8);
    v.push('t' as u8);
    proof {
        assert(v@ =~= tag_stdout());
    }
    v
}

/// The bytes of the literal `failures:`.
pub open spec fn tag_failures() -> Seq<u8> {
    seq!['f' as u8, 'a' as u8, 'i' as u8, 'l' as u8, 'u' as u8, 'r' as u8, 'e' as u8, 's' as u8, ':' as u8]
}
/// The bytes of the literal `failures:`, as a runtime value.
pub fn tag_failures_bytes() -> (v: Vec<u8>)
    ensures
        v@ == tag_failures(),
{
    let mut v: Vec<u8> = Vec::new();
    v.push('f' as u8);
    v.push('a' as u8);
    v.push('i' as u8);
    v.push('l' as u8);
    v.push('u' as u8);
    v.push('r' as u8);
    v.push('e' as u8);
    v.push('s' as u8);
    v.push(':' as u8);
    proof {
        assert(v@ =~= tag_failures());
    }
    v
}

/// The bytes of the literal `note: Run with `RUST_BACKTRACE=1` for a backtrace.`.
pub open spec fn tag_backtrace_note() -> Seq<u8> {
    seq!['n' as u8, 'o' as u8, 't' as u8, 'e' as u8, ':' as u8, ' ' as u8, 'R' as u8, 'u' as u8, 'n' as u8, ' ' as u8, 'w' as u8, 'i' as u8, 't' as u8, 'h' as u8, ' ' as u8, '`' as u8, 'R' as u8, 'U' as u8, 'S' as u8, 'T' as u8, '_' as u8, 'B' as u8, 'A' as u8, 'C' as u8, 'K' as u8, 'T' as u8, 'R' as u8, 'A' as u8, 'C' as u8, 'E' as u8, '=' as u8, '1' as u8, '`' as u8, ' ' as u8, 'f' as u8, 'o' as u8, 'r' as u8, ' ' as u8, 'a' as u8, ' ' as u8, 'b' as u8, 'a' as u8, 'c' as u8, 'k' as u8, 't' as u8, 'r' as u8, 'a' as u8, 'c' as u8, 'e' as u8, '.' as u8]
}
/// The bytes of the literal `note: Run with `RUST_BACKTRACE=1` for a backtrace.`, as a runtime value.
pub fn tag_backtrace_note_bytes() -> (v: Vec<u8>)
    ensures
        v@ == tag_backtrace_note(),
{
    let mut v: Vec<u8> = Vec::new();
    v.push('n' as u8);
    v.push('o' as u8);
    v.push('t' as u8);
    v.push('e' as u8);
    v.push(':' as u8);
    v.push(' ' as u8);
    v.push('R' as u8);
    v.push('u' as u8);
    v.push('n' as u8);
    v.push(' ' as u8);
    v.push('w' as u8);
    v.push('i' as u8);
    v.push('t' as u8);
    v.push('h' as u8);
    v.push(' ' as u8);
    v.push('`' as u8);
    v.push('R' as u8);
    v.push('U' as u8);
    v.push('S' as u8);
    v.push('T' as u8);
    v.push('_' as u8);
    v.push('B' as u8);
    v.push('A' as u8);
    v.push('C' as u8);
    v.push('K' as u8);
    v.push('T' as u8);
    v.push('R' as u8);
    v.push('A' as u8);
    v.push('C' as u8);
    v.push('E' as u8);
    v.push('=' as u8);
    v.push('1' as u8);
    v.push('`' as u8);
    v.push(' ' as u8);
    v.push('f' as u8);
    v.push('o' as u8);
    v.push('r' as u8);
    v.push(' ' as u8);
    v.push('a' as u8);
    v.push(' ' as u8);
    v.push('b' as u8);
    v.push('a' as u8);
    v.push('c' as u8);
    v.push('k' as u8);
    v.push('t' as u8);
    v.push('r' as u8);
    v.push('a' as u8);
    v.push('c' as u8);
    v.push('e' as u8);
    v.push('.' as u8);
    proof {
        assert(v@ =~= tag_backtrace_note());
    }
    v
}

/// The bytes of the literal `error`.
pub open spec fn tag_error() -> Seq<u8> {
    seq!['e' as u8, 'r' as u8, 'r' as u8, 'o' as u8, 'r' as u8]
}
/// The bytes of the literal `error`, as a runtime value.
pub fn tag_error_bytes() -> (v: Vec<u8>)
    ensures
        v@ == tag_error(),
{
    let mut v: Vec<u8> = Vec::new();
    v.push('e' as u8);
    v.push('r' as u8);
    v.push('r' as u8);
    v.push('o' as u8);
    v.push('r' as u8);
    proof {
        assert(v@ =~= tag_error());
    }
    v
}

/// The bytes of the literal `[`.
pub open spec fn tag_open_bracket() -> Seq<u8> {
    seq!['[' as u8]
}
/// The bytes of the literal `[`, as a runtime value.
pub fn tag_open_bracket_bytes() -> (v: Vec<u8>)
    ensures
        v@ == tag_open_bracket(),
{
    let mut v: Vec<u8> = Vec::new();
    v.push('[' as u8);
    proof {
        assert(v@ =~= tag_open_bracket());
    }
    v
}

/// The bytes of the literal `]`.
pub open spec fn tag_close_bracket() -> Seq<u8> {
    seq![']' as u8]
}
/// The bytes of the literal `]`, as a runtime value.
pub fn tag_close_bracket_bytes() -> (v: Vec<u8>)
    ensures
        v@ == tag_close_bracket(),
{
    let mut v: Vec<u8> = Vec::new();
    v.push(']' as u8);
    proof {
        assert(v@ =~= tag_close_bracket());
    }
    v
}

/// The bytes of the literal `:`.
pub open spec fn tag_colon() -> Seq<u8> {
    seq![':' as u8]
}
/// The bytes of the literal `:`, as a runtime value.
pub fn tag_colon_bytes() -> (v: Vec<u8>)
    ensures
        v@ == tag_colon(),
{
    let mut v: Vec<u8> = Vec::new();
    v.push(':' as u8);
    proof {
        assert(v@ =~= tag_colon());
    }
    v
}

/// The bytes of the literal ` `.
pub open spec fn tag_space() -> Seq<u8> {
    seq![' ' as u8]
}
/// The bytes of the literal ` `, as a runtime value.
pub fn tag_space_bytes() -> (v: Vec<u8>)
    ensures
        v@ == tag_space(),
{
    let mut v: Vec<u8> = Vec::new();
    v.push(' ' as u8);
    proof {
        assert(v@ =~= tag_space());
    }
    v
}

/// The bytes of the literal `unknown`.
pub open spec fn tag_unknown() -> Seq<u8> {
    seq!['u' as u8, 'n' as u8, 'k' as u8, 'n' as u8, 'o' as u8, 'w' as u8, 'n' as u8]
}
/// The bytes of the literal `unknown`, as a runtime value.
pub fn tag_unknown_bytes() -> (v: Vec<u8>)
    ensures
        v@ == tag_unknown(),
{
    let mut v: Vec<u8> = Vec::new();
    v.push('u' as u8);
    v.push('n' as u8);
    v.push('k' as u8);
    v.push('n' as u8);
    v.push('o' as u8);
    v.push('w' as u8);
    v.push('n' as u8);
    proof {
        assert(v@ =~= tag_unknown());
    }
    v
}

/// The bytes of the literal `compile failed`.
pub open spec fn tag_compile_failed() -> Seq<u8> {
    seq!['c' as u8, 'o' as u8, 'm' as u8, 'p' as u8, 'i' as u8, 'l' as u8, 'e' as u8, ' ' as u8, 'f' as u8, 'a' as u8, 'i' as u8, 'l' as u8, 'e' as u8, 'd' as u8]
}
/// The bytes of the literal `compile failed`, as a runtime value.
pub fn tag_compile_failed_bytes() -> (v: Vec<u8>)
    ensures
        v@ == tag_compile_failed(),
{
    let mut v: Vec<u8> = Vec::new();
    v.push('c' as u8);
    v.push('o' as u8);
    v.push('m' as u8);
    v.push('p' as u8);
    v.push('i' as u8);
    v.push('l' as u8);
    v.push('e' as u8);
    v.push(' ' as u8);
    v.push('f' as u8);
    v.push('a' as u8);
    v.push('i' as u8);
    v.push('l' as u8);
    v.push('e' as u8);
    v.push('d' as u8);
    proof {
        assert(v@ =~= tag_compile_failed());
    }
    v
}

} // verus!
