//! Character-level helpers shared by the block recognizers: counting a run
//! of one character at the front of a string and testing whether a string
//! consists of a single repeated character.

use vstd::prelude::*;
use vstd::string::StrSliceExecFns;

verus! {

/// Relies on String::push: appends the one character to the end of the
/// string.
#[verifier::external_body]
pub(crate) fn push_char(s: &mut String, c: char)
    ensures
        final(s)@ == old(s)@.push(c),
{
    s.push(c);
}

/// Number of consecutive copies of `c` at the front of `s`.
pub open spec fn leading_run(s: Seq<char>, c: char) -> nat
    decreases s.len(),
{
    if s.len() > 0 && s[0] == c {
        leading_run(s.skip(1), c) + 1
    } else {
        0
    }
}

/// `s` is non-empty and every character of `s` equals `c`.
pub open spec fn all_eq(s: Seq<char>, c: char) -> bool {
    s.len() > 0 && forall|i: int| 0 <= i < s.len() ==> s[i] == c
}

/// The leading run is a maximal prefix of copies of `c`.
pub proof fn lemma_leading_run(s: Seq<char>, c: char)
    ensures
        leading_run(s, c) <= s.len(),
        forall|i: int| 0 <= i < leading_run(s, c) ==> s[i] == c,
        leading_run(s, c) < s.len() ==> s[leading_run(s, c) as int] != c,
    decreases s.len(),
{
    if s.len() > 0 && s[0] == c {
        lemma_leading_run(s.skip(1), c);
        assert forall|i: int| 0 <= i < leading_run(s, c) implies s[i] == c by {
            if i > 0 {
                assert(s.skip(1)[i - 1] == s[i]);
            }
        }
        if leading_run(s, c) < s.len() {
            assert(s.skip(1)[leading_run(s, c) - 1] == s[leading_run(s, c) as int]);
        }
    }
}

/// A maximal prefix of copies of `c` has the length of the leading run.
pub proof fn lemma_leading_run_is(s: Seq<char>, c: char, k: int)
    requires
        0 <= k <= s.len(),
        forall|i: int| 0 <= i < k ==> s[i] == c,
        k < s.len() ==> s[k] != c,
    ensures
        leading_run(s, c) == k,
    decreases s.len(),
{
    if s.len() > 0 && s[0] == c {
        assert forall|i: int| 0 <= i < k - 1 implies s.skip(1)[i] == c by {
            assert(s.skip(1)[i] == s[i + 1]);
        }
        if k - 1 < s.skip(1).len() {
            assert(s.skip(1)[k - 1] == s[k]);
        }
        lemma_leading_run_is(s.skip(1), c, k - 1);
    }
}

/// Length of the leading run of copies of `c` in `s`.
fn run_length(s: &str, c: char) -> (k: usize)
    ensures
        k == leading_run(s@, c),
{
    let n = s.unicode_len();
    let mut k: usize = 0;
    while k < n && s.get_char(k) == c
        invariant
            0 <= k <= n,
            n == s@.len(),
            forall|i: int| 0 <= i < k ==> s@[i] == c,
        decreases n - k,
    {
        k = k + 1;
    }
    proof {
        lemma_leading_run_is(s@, c, k as int);
    }
    k
}

/// What is left of `s` once the leading run of `c` and then any leading
/// spaces are removed.
pub open spec fn after_leading(s: Seq<char>, c: char) -> Seq<char> {
    let k = leading_run(s, c) as int;
    let m = leading_run(s.skip(k), ' ') as int;
    s.skip(k + m)
}

/// If `s` starts with `c`, return the characters that remain after the
/// leading run of `c` has been removed and leading spaces trimmed, along
/// with the length of that run; otherwise return nothing.
pub fn starting_chars(s: &str, c: char) -> (r: Option<(String, usize)>)
    ensures
        r is Some <==> s@.len() > 0 && s@[0] == c,
        r matches Some(p) ==> p.1 == leading_run(s@, c) && p.0@ == after_leading(s@, c),
{
    let n = s.unicode_len();
    if n == 0 || s.get_char(0) != c {
        return None;
    }
    let k = run_length(s, c);
    proof {
        lemma_leading_run(s@, c);
    }
    let rest = s.substring_char(k, n);
    let m = run_length(rest, ' ');
    proof {
        lemma_leading_run(rest@, ' ');
        assert(rest@ =~= s@.skip(k as int));
    }
    let words = s.substring_char(k + m, n);
    proof {
        assert(words@ =~= after_leading(s@, c));
    }
    Some((words.to_owned(), k))
}

/// `s` is non-empty and consists entirely of copies of `c`.
pub fn all_chars_are(c: char, s: &str) -> (r: bool)
    ensures
        r == all_eq(s@, c),
{
    let n = s.unicode_len();
    if n == 0 {
        return false;
    }
    let mut i: usize = 0;
    while i < n
        invariant
            0 <= i <= n,
            n == s@.len(),
            forall|j: int| 0 <= j < i ==> s@[j] == c,
        decreases n - i,
    {
        if s.get_char(i) != c {
            return false;
        }
        i = i + 1;
    }
    true
}

/// `s` is non-empty and consists entirely of copies of `c`.
pub fn all_same(c: char, s: &str) -> (r: bool)
    ensures
        r == all_eq(s@, c),
{
    all_chars_are(c, s)
}

} // verus!
