//! Byte-level primitives of the grammar: classifying single bytes, counting a
//! run of bytes that satisfy a predicate, matching a literal tag at the start
//! of the input, and finding the first occurrence of a tag.
//!
//! Every specification function here takes the remaining input as a byte
//! sequence and speaks of how many bytes a recognizer consumes from its
//! front; the executable functions are proved to agree with them exactly.
use vstd::prelude::*;
use vstd::slice::slice_subrange;
use vstd::slice::slice_to_vec;

verus! {

/// Whitespace as the grammar's literal-surrounding skip understands it:
/// space, tab, carriage return, line feed.
pub open spec fn is_ws_byte(b: u8) -> bool {
    b == 32 || b == 9 || b == 13 || b == 10
}

/// Horizontal whitespace: space or tab.
pub open spec fn is_sp_byte(b: u8) -> bool {
    b == 32 || b == 9
}

/// An ASCII decimal digit.
pub open spec fn is_digit_byte(b: u8) -> bool {
    48 <= b && b <= 57
}

/// A byte that can stand inside a line: anything but a line feed or a
/// carriage return.
pub open spec fn is_line_byte(b: u8) -> bool {
    b != 10 && b != 13
}

pub open spec fn ws_pred() -> spec_fn(u8) -> bool {
    |b: u8| is_ws_byte(b)
}

pub open spec fn sp_pred() -> spec_fn(u8) -> bool {
    |b: u8| is_sp_byte(b)
}

pub open spec fn digit_pred() -> spec_fn(u8) -> bool {
    |b: u8| is_digit_byte(b)
}

pub open spec fn line_pred() -> spec_fn(u8) -> bool {
    |b: u8| is_line_byte(b)
}

/// The length of the longest prefix of `s` whose bytes all satisfy `p`.
pub open spec fn count_prefix(s: Seq<u8>, p: spec_fn(u8) -> bool) -> int
    decreases s.len(),
{
    if s.len() > 0 && p(s[0]) {
        1 + count_prefix(s.skip(1), p)
    } else {
        0
    }
}

/// `count_prefix` is between 0 and the length of `s`, all bytes before it
/// satisfy `p`, and the byte at it (if any) does not.
pub broadcast proof fn lemma_count_prefix(s: Seq<u8>, p: spec_fn(u8) -> bool)
    ensures
        0 <= #[trigger] count_prefix(s, p) <= s.len(),
        forall|i: int| 0 <= i < count_prefix(s, p) ==> p(s[i]),
        count_prefix(s, p) < s.len() ==> !p(s[count_prefix(s, p)]),
    decreases s.len(),
{
    if s.len() > 0 && p(s[0]) {
        lemma_count_prefix(s.skip(1), p);
        assert forall|i: int| 0 <= i < count_prefix(s, p) implies p(s[i]) by {
            if i > 0 {
                assert(s.skip(1)[i - 1] == s[i]);
            }
        }
        if count_prefix(s, p) < s.len() {
            assert(s.skip(1)[count_prefix(s, p) - 1] == s[count_prefix(s, p)]);
        }
    }
}

/// The converse: a position bounded by the length of `s`, with `p` holding
/// everywhere before it and failing at it, is exactly `count_prefix`.
pub proof fn lemma_count_prefix_is(s: Seq<u8>, p: spec_fn(u8) -> bool, m: int)
    requires
        0 <= m <= s.len(),
        forall|i: int| 0 <= i < m ==> p(s[i]),
        m < s.len() ==> !p(s[m]),
    ensures
        count_prefix(s, p) == m,
    decreases m,
{
    if m > 0 {
        assert forall|i: int| 0 <= i < m - 1 implies p(s.skip(1)[i]) by {
            assert(s.skip(1)[i] == s[i + 1]);
        }
        if m - 1 < s.skip(1).len() {
            assert(s.skip(1)[m - 1] == s[m]);
        }
        lemma_count_prefix_is(s.skip(1), p, m - 1);
    }
}

/// How far a literal `t` matches at the very start of `s`: the length of `t`
/// when `t` is a prefix of `s`, and nothing otherwise.
pub open spec fn spec_tag(s: Seq<u8>, t: Seq<u8>) -> Option<int> {
    if t.len() <= s.len() && s.take(t.len() as int) == t {
        Some(t.len() as int)
    } else {
        None
    }
}

/// The position of the first occurrence of `t` inside `s`, if there is one.
pub open spec fn spec_find(s: Seq<u8>, t: Seq<u8>) -> Option<int>
    decreases s.len(),
{
    if t.len() == 0 {
        Some(0)
    } else if t.len() > s.len() {
        None
    } else if s.take(t.len() as int) == t {
        Some(0)
    } else {
        match spec_find(s.skip(1), t) {
            Some(k) => Some(1 + k),
            None => None,
        }
    }
}

/// When `spec_find` answers, `t` indeed stands at the answer.
pub proof fn lemma_find_some(s: Seq<u8>, t: Seq<u8>)
    ensures
        spec_find(s, t) matches Some(k) ==> 0 <= k && k + t.len() <= s.len() && s.subrange(
            k,
            k + t.len(),
        ) == t,
    decreases s.len(),
{
    if t.len() == 0 {
        assert(s.subrange(0, 0) =~= t);
    } else if t.len() > s.len() {
    } else if s.take(t.len() as int) == t {
        assert(s.subrange(0, t.len() as int) =~= s.take(t.len() as int));
    } else {
        lemma_find_some(s.skip(1), t);
        if let Some(k) = spec_find(s.skip(1), t) {
            assert(s.subrange(1 + k, 1 + k + t.len()) =~= s.skip(1).subrange(k, k + t.len()));
        }
    }
}

/// The converse: if `t` stands at `k` and nowhere before, `spec_find` is `k`.
pub proof fn lemma_find_at(s: Seq<u8>, t: Seq<u8>, k: int)
    requires
        t.len() > 0,
        0 <= k,
        k + t.len() <= s.len(),
        s.subrange(k, k + t.len()) == t,
        forall|j: int| 0 <= j < k ==> #[trigger] s.subrange(j, j + t.len()) != t,
    ensures
        spec_find(s, t) == Some(k),
    decreases k,
{
    if k == 0 {
        assert(s.take(t.len() as int) =~= s.subrange(0, t.len() as int));
    } else {
        assert(s.take(t.len() as int) =~= s.subrange(0, t.len() as int));
        assert(s.subrange(0, 0 + t.len() as int) != t);
        assert(s.take(t.len() as int) != t);
        assert(s.skip(1).subrange(k - 1, k - 1 + t.len()) =~= s.subrange(k, k + t.len()));
        assert forall|j: int| 0 <= j < k - 1 implies #[trigger] s.skip(1).subrange(j, j + t.len()) != t by {
            assert(s.skip(1).subrange(j, j + t.len()) =~= s.subrange(j + 1, j + 1 + t.len()));
        }
        lemma_find_at(s.skip(1), t, k - 1);
    }
}

/// If `t` stands nowhere in `s`, `spec_find` finds nothing.
pub proof fn lemma_find_none(s: Seq<u8>, t: Seq<u8>)
    requires
        t.len() > 0,
        forall|j: int| 0 <= j && j + t.len() <= s.len() ==> #[trigger] s.subrange(j, j + t.len()) != t,
    ensures
        spec_find(s, t) is None,
    decreases s.len(),
{
    if t.len() <= s.len() {
        assert(s.take(t.len() as int) =~= s.subrange(0, t.len() as int));
        assert(s.subrange(0, 0 + t.len() as int) != t);
        assert forall|j: int| 0 <= j && j + t.len() <= s.skip(1).len() implies #[trigger] s.skip(
            1,
        ).subrange(j, j + t.len()) != t by {
            assert(s.skip(1).subrange(j, j + t.len()) =~= s.subrange(j + 1, j + 1 + t.len()));
        }
        lemma_find_none(s.skip(1), t);
    }
}

/// Whether `b` is whitespace in the grammar's sense.
pub fn is_ws(b: u8) -> (r: bool)
    ensures
        r == is_ws_byte(b),
{
    b == 32 || b == 9 || b == 13 || b == 10
}

/// Whether `b` is a space or a tab.
pub fn is_sp(b: u8) -> (r: bool)
    ensures
        r == is_sp_byte(b),
{
    b == 32 || b == 9
}

/// Whether `b` is an ASCII decimal digit.
pub fn is_digit(b: u8) -> (r: bool)
    ensures
        r == is_digit_byte(b),
{
    48 <= b && b <= 57
}

/// Whether `b` may stand inside a line.
pub fn is_line(b: u8) -> (r: bool)
    ensures
        r == is_line_byte(b),
{
    b != 10 && b != 13
}

/// The number of leading whitespace bytes of `input`.
pub fn skip_ws(input: &[u8]) -> (n: usize)
    ensures
        n <= input.len(),
        n as int == count_prefix(input@, ws_pred()),
{
    let mut i: usize = 0;
    while i < input.len() && is_ws(input[i])
        invariant
            i <= input.len(),
            forall|j: int| 0 <= j < i ==> is_ws_byte(input@[j]),
        decreases input.len() - i,
    {
        i = i + 1;
    }
    proof {
        lemma_count_prefix_is(input@, ws_pred(), i as int);
    }
    i
}

/// The number of leading space-or-tab bytes of `input`.
pub fn skip_sp(input: &[u8]) -> (n: usize)
    ensures
        n <= input.len(),
        n as int == count_prefix(input@, sp_pred()),
{
    let mut i: usize = 0;
    while i < input.len() && is_sp(input[i])
        invariant
            i <= input.len(),
            forall|j: int| 0 <= j < i ==> is_sp_byte(input@[j]),
        decreases input.len() - i,
    {
        i = i + 1;
    }
    proof {
        lemma_count_prefix_is(input@, sp_pred(), i as int);
    }
    i
}

/// The number of leading digit bytes of `input`.
pub fn digit_run(input: &[u8]) -> (n: usize)
    ensures
        n <= input.len(),
        n as int == count_prefix(input@, digit_pred()),
{
    let mut i: usize = 0;
    while i < input.len() && is_digit(input[i])
        invariant
            i <= input.len(),
            forall|j: int| 0 <= j < i ==> is_digit_byte(input@[j]),
        decreases input.len() - i,
    {
        i = i + 1;
    }
    proof {
        lemma_count_prefix_is(input@, digit_pred(), i as int);
    }
    i
}

/// The number of leading bytes of `input` before a line terminator.
pub fn line_run(input: &[u8]) -> (n: usize)
    ensures
        n <= input.len(),
        n as int == count_prefix(input@, line_pred()),
{
    let mut i: usize = 0;
    while i < input.len() && is_line(input[i])
        invariant
            i <= input.len(),
            forall|j: int| 0 <= j < i ==> is_line_byte(input@[j]),
        decreases input.len() - i,
    {
        i = i + 1;
    }
    proof {
        lemma_count_prefix_is(input@, line_pred(), i as int);
    }
    i
}

/// Matches the literal `tag` at the start of `input`.
pub fn match_tag(input: &[u8], tag: &Vec<u8>) -> (r: Option<usize>)
    ensures
        match r {
            Some(n) => n == tag.len() && n <= input.len() && spec_tag(input@, tag@) == Some(
                n as int,
            ),
            None => spec_tag(input@, tag@) is None,
        },
{
    if tag.len() > input.len() {
        return None;
    }
    let mut i: usize = 0;
    while i < tag.len()
        invariant
            i <= tag.len(),
            tag.len() <= input.len(),
            forall|j: int| 0 <= j < i ==> input@[j] == tag@[j],
        decreases tag.len() - i,
    {
        if input[i] != tag[i] {
            proof {
                assert(input@.take(tag@.len() as int)[i as int] == input@[i as int]);
            }
            return None;
        }
        i = i + 1;
    }
    proof {
        assert(input@.take(tag@.len() as int) =~= tag@);
    }
    Some(tag.len())
}

/// Finds the first occurrence of `tag` inside `input`.
pub fn find_sub(input: &[u8], tag: &Vec<u8>) -> (r: Option<usize>)
    requires
        tag.len() >= 1,
    ensures
        match r {
            Some(k) => k + tag.len() <= input.len() && spec_find(input@, tag@) == Some(k as int),
            None => spec_find(input@, tag@) is None,
        },
{
    if tag.len() > input.len() {
        return None;
    }
    let mut j: usize = 0;
    let last: usize = input.len() - tag.len();
    while j <= last
        invariant
            tag.len() >= 1,
            tag.len() <= input.len(),
            last == input.len() - tag.len(),
            j <= last + 1,
            forall|j2: int| 0 <= j2 < j ==> #[trigger] input@.subrange(j2, j2 + tag@.len()) != tag@,
        decreases last + 1 - j,
    {
        let rest = slice_subrange(input, j, input.len());
        match match_tag(rest, tag) {
            Some(_) => {
                proof {
                    assert(input@.subrange(j as int, j as int + tag@.len() as int) =~= rest@.take(
                        tag@.len() as int,
                    ));
                    lemma_find_at(input@, tag@, j as int);
                }
                return Some(j);
            },
            None => {
                proof {
                    assert(input@.subrange(j as int, j as int + tag@.len() as int) =~= rest@.take(
                        tag@.len() as int,
                    ));
                }
            },
        }
        j = j + 1;
    }
    proof {
        lemma_find_none(input@, tag@);
    }
    None
}

/// Whether two byte strings hold the same bytes.
pub fn bytes_eq(a: &Vec<u8>, b: &Vec<u8>) -> (r: bool)
    ensures
        r == (a@ == b@),
{
    if a.len() != b.len() {
        return false;
    }
    let mut i: usize = 0;
    while i < a.len()
        invariant
            a.len() == b.len(),
            i <= a.len(),
            forall|j: int| 0 <= j < i ==> a@[j] == b@[j],
        decreases a.len() - i,
    {
        if a[i] != b[i] {
            return false;
        }
        i = i + 1;
    }
    proof {
        assert(a@ =~= b@);
    }
    true
}

/// A fresh copy of a byte string.
pub fn clone_bytes(v: &Vec<u8>) -> (r: Vec<u8>)
    ensures
        r@ == v@,
{
    slice_to_vec(v.as_slice())
}

} // verus!
