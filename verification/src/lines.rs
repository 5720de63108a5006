//! The line source adapter: splitting a whole document into lines with
//! their terminators stripped.

use vstd::prelude::*;
use vstd::string::StrSliceExecFns;

verus! {

/// Number of characters before the first newline of `s` (all of `s` when
/// it holds none).
pub open spec fn line_len(s: Seq<char>) -> nat
    decreases s.len(),
{
    if s.len() == 0 || s[0] == '\n' {
        0
    } else {
        line_len(s.skip(1)) + 1
    }
}

/// `s` with one trailing carriage return removed, if it ends in one.
pub open spec fn strip_cr(s: Seq<char>) -> Seq<char> {
    if s.len() > 0 && s.last() == '\r' {
        s.drop_last()
    } else {
        s
    }
}

/// The first line is never longer than the text.
proof fn lemma_line_len_le(s: Seq<char>)
    ensures
        line_len(s) <= s.len(),
    decreases s.len(),
{
    if s.len() > 0 && s[0] != '\n' {
        lemma_line_len_le(s.skip(1));
    }
}

/// The lines of `s`: the text is split at each newline, one trailing
/// carriage return is stripped from each piece, and a final newline does
/// not open an empty last line.
pub open spec fn split_lines(s: Seq<char>) -> Seq<Seq<char>>
    decreases s.len(),
    via split_lines_dec
{
    if s.len() == 0 {
        Seq::empty()
    } else {
        let n = line_len(s) as int;
        if n == s.len() {
            seq![strip_cr(s)]
        } else {
            seq![strip_cr(s.take(n))] + split_lines(s.skip(n + 1))
        }
    }
}

#[via_fn]
proof fn split_lines_dec(s: Seq<char>) {
    lemma_line_len_le(s);
}

/// A maximal newline-free prefix has the length `line_len` gives.
proof fn lemma_line_len_is(s: Seq<char>, k: int)
    requires
        0 <= k <= s.len(),
        forall|i: int| 0 <= i < k ==> s[i] != '\n',
        k < s.len() ==> s[k] == '\n',
    ensures
        line_len(s) == k,
    decreases s.len(),
{
    if s.len() > 0 && s[0] != '\n' {
        assert forall|i: int| 0 <= i < k - 1 implies s.skip(1)[i] != '\n' by {
            assert(s.skip(1)[i] == s[i + 1]);
        }
        if k - 1 < s.skip(1).len() {
            assert(s.skip(1)[k - 1] == s[k]);
        }
        lemma_line_len_is(s.skip(1), k - 1);
    }
}

/// Split `text` into its lines, stripping the `'\n'` terminators and one
/// trailing `'\r'` before each of them.
pub fn read_to_lines(text: &str) -> (r: Vec<String>)
    ensures
        r.deep_view() == split_lines(text@),
{
    let n = text.unicode_len();
    let mut out: Vec<String> = Vec::new();
    let mut start: usize = 0;
    proof {
        assert(text@.skip(0) =~= text@);
        assert(out.deep_view() =~~= Seq::<Seq<char>>::empty());
    }
    while start < n
        invariant
            0 <= start <= n,
            n == text@.len(),
            split_lines(text@) == out.deep_view() + split_lines(text@.skip(start as int)),
        decreases n - start,
    {
        let ghost rem = text@.skip(start as int);
        let mut end: usize = start;
        while end < n && text.get_char(end) != '\n'
            invariant
                start <= end <= n,
                n == text@.len(),
                forall|j: int| start <= j < end ==> text@[j] != '\n',
            decreases n - end,
        {
            end = end + 1;
        }
        proof {
            assert forall|i: int| 0 <= i < end - start implies rem[i] != '\n' by {
                assert(rem[i] == text@[start + i]);
            }
            if end < n {
                assert(rem[end - start] == text@[end as int]);
            }
            lemma_line_len_is(rem, end - start);
        }
        let mut e2 = end;
        if e2 > start && text.get_char(e2 - 1) == '\r' {
            e2 = e2 - 1;
        }
        let piece = text.substring_char(start, e2);
        let ghost old_out = out.deep_view();
        out.push(piece.to_owned());
        proof {
            assert(out.deep_view() =~~= old_out.push(piece@));
            assert(rem.take(end - start) =~= text@.subrange(start as int, end as int));
            assert(piece@ =~= strip_cr(rem.take(end - start)));
            if end == n {
                assert(rem.take(end - start) =~= rem);
                assert(split_lines(rem) =~~= seq![strip_cr(rem)]);
            } else {
                assert(rem.skip(end - start + 1) =~= text@.skip(end + 1));
                assert(split_lines(rem) =~~= seq![strip_cr(rem.take(end - start))] + split_lines(
                    text@.skip(end + 1),
                ));
            }
        }
        if end < n {
            start = end + 1;
        } else {
            start = n;
            proof {
                assert(text@.skip(n as int) =~= Seq::<char>::empty());
            }
        }
        proof {
            assert(split_lines(text@) =~~= out.deep_view() + split_lines(
                text@.skip(start as int),
            ));
        }
    }
    proof {
        assert(text@.skip(start as int) =~= Seq::<char>::empty());
        assert(out.deep_view() =~~= split_lines(text@));
    }
    out
}

} // verus!
