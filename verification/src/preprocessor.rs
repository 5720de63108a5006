//! Tab expansion: each tab character becomes four spaces, so that the
//! recognizers only ever deal with spaces.

use vstd::prelude::*;
use vstd::string::StrSliceExecFns;
use crate::text::push_char;

verus! {

/// `s` with every tab replaced by four spaces.
pub open spec fn expand_tabs(s: Seq<char>) -> Seq<char>
    decreases s.len(),
{
    if s.len() == 0 {
        Seq::empty()
    } else {
        expand_tabs(s.drop_last()) + (if s.last() == '\t' {
            seq![' ', ' ', ' ', ' ']
        } else {
            seq![s.last()]
        })
    }
}

/// One line with every tab replaced by four spaces.
fn expand_line(s: &str) -> (r: String)
    ensures
        r@ == expand_tabs(s@),
{
    let n = s.unicode_len();
    let mut out = String::new();
    let mut i: usize = 0;
    while i < n
        invariant
            0 <= i <= n,
            n == s@.len(),
            out@ == expand_tabs(s@.take(i as int)),
        decreases n - i,
    {
        let c = s.get_char(i);
        if c == '\t' {
            push_char(&mut out, ' ');
            push_char(&mut out, ' ');
            push_char(&mut out, ' ');
            push_char(&mut out, ' ');
        } else {
            push_char(&mut out, c);
        }
        proof {
            assert(s@.take(i + 1).drop_last() =~= s@.take(i as int));
            assert(s@.take(i + 1).last() == s@[i as int]);
            if s@[i as int] == '\t' {
                assert(out@ =~= expand_tabs(s@.take(i + 1)));
            } else {
                assert(out@ =~= expand_tabs(s@.take(i + 1)));
            }
        }
        i = i + 1;
    }
    proof {
        assert(s@.take(n as int) =~= s@);
    }
    out
}

/// Every line with each tab replaced by four spaces.
pub fn replace_tabs(lines: &Vec<String>) -> (r: Vec<String>)
    ensures
        r@.len() == lines@.len(),
        forall|i: int| 0 <= i < lines@.len() ==> r.deep_view()[i] == expand_tabs(
            lines.deep_view()[i],
        ),
{
    let mut out: Vec<String> = Vec::new();
    let mut i: usize = 0;
    while i < lines.len()
        invariant
            0 <= i <= lines@.len(),
            out@.len() == i,
            forall|j: int| 0 <= j < i ==> out.deep_view()[j] == expand_tabs(lines.deep_view()[j]),
        decreases lines.len() - i,
    {
        let ghost old_out = out.deep_view();
        out.push(expand_line(lines[i].as_str()));
        proof {
            assert(out.deep_view() =~~= old_out.push(expand_tabs(lines.deep_view()[i as int])));
        }
        i = i + 1;
    }
    out
}

} // verus!
