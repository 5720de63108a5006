//! The block segmenter: grouping a sequence of lines into blocks on
//! blank-line separators.

use vstd::prelude::*;
use vstd::string::StrSliceExecFns;
use crate::block::Block;

verus! {

/// `s` with every trailing newline removed.
pub open spec fn strip_newlines(s: Seq<char>) -> Seq<char>
    decreases s.len(),
{
    if s.len() > 0 && s[s.len() - 1] == '\n' {
        strip_newlines(s.drop_last())
    } else {
        s
    }
}

/// A separator line: once trailing newlines are stripped, nothing but
/// spaces and tabs remains. Exactly the characters `' '`, `'\t'` and the
/// line terminator are disregarded, no other whitespace.
pub open spec fn is_sep(s: Seq<char>) -> bool {
    forall|i: int|
        0 <= i < strip_newlines(s).len() ==> strip_newlines(s)[i] == ' ' || strip_newlines(
            s,
        )[i] == '\t'
}

/// Stripping trailing newlines keeps the prefix that ends at the last
/// non-newline character.
proof fn lemma_strip_newlines_is(s: Seq<char>, e: int)
    requires
        0 <= e <= s.len(),
        forall|j: int| e <= j < s.len() ==> s[j] == '\n',
        e > 0 ==> s[e - 1] != '\n',
    ensures
        strip_newlines(s) == s.take(e),
    decreases s.len(),
{
    if s.len() > 0 && s[s.len() - 1] == '\n' {
        lemma_strip_newlines_is(s.drop_last(), e);
        assert(s.drop_last().take(e) =~= s.take(e));
    } else {
        assert(s.take(e) =~= s);
    }
}

/// Whether `s` is a block separator: empty once trailing newlines and then
/// leading spaces and tabs are stripped.
pub fn is_block_separator(s: &str) -> (r: bool)
    ensures
        r == is_sep(s@),
{
    let n = s.unicode_len();
    let mut e: usize = n;
    while e > 0 && s.get_char(e - 1) == '\n'
        invariant
            0 <= e <= n,
            n == s@.len(),
            forall|j: int| e <= j < n ==> s@[j] == '\n',
        decreases e,
    {
        e = e - 1;
    }
    proof {
        lemma_strip_newlines_is(s@, e as int);
    }
    let mut i: usize = 0;
    while i < e
        invariant
            0 <= i <= e <= n,
            n == s@.len(),
            strip_newlines(s@) == s@.take(e as int),
            forall|j: int| 0 <= j < i ==> s@[j] == ' ' || s@[j] == '\t',
        decreases e - i,
    {
        let c = s.get_char(i);
        if c != ' ' && c != '\t' {
            proof {
                assert(strip_newlines(s@)[i as int] == s@[i as int]);
            }
            return false;
        }
        i = i + 1;
    }
    proof {
        assert forall|j: int| 0 <= j < strip_newlines(s@).len() implies strip_newlines(s@)[j] == ' '
            || strip_newlines(s@)[j] == '\t' by {
            assert(strip_newlines(s@)[j] == s@[j]);
        }
    }
    true
}

/// `s` as a fresh string with trailing newlines removed.
fn strip_line(s: &str) -> (r: String)
    ensures
        r@ == strip_newlines(s@),
{
    let n = s.unicode_len();
    let mut e: usize = n;
    while e > 0 && s.get_char(e - 1) == '\n'
        invariant
            0 <= e <= n,
            n == s@.len(),
            forall|j: int| e <= j < n ==> s@[j] == '\n',
        decreases e,
    {
        e = e - 1;
    }
    proof {
        lemma_strip_newlines_is(s@, e as int);
    }
    let t = s.substring_char(0, e);
    proof {
        assert(t@ =~= s@.take(e as int));
    }
    t.to_owned()
}

/// The ordered sequence of blocks of one document.
#[derive(Debug)]
pub struct Blocks(pub Vec<Block>);

impl View for Blocks {
    type V = Seq<Seq<Seq<char>>>;

    open spec fn view(&self) -> Seq<Seq<Seq<char>>> {
        self.0.deep_view()
    }
}

impl Blocks {
    /// Number of blocks.
    pub fn len(&self) -> (n: usize)
        ensures
            n == self@.len(),
    {
        self.0.len()
    }

    /// The blocks, for iteration in source order.
    pub fn iter(&self) -> (r: &Vec<Block>)
        ensures
            r.deep_view() == self@,
    {
        &self.0
    }
}

/// Number of separator lines in `lines`.
pub open spec fn sep_count(lines: Seq<Seq<char>>) -> nat
    decreases lines.len(),
{
    if lines.len() == 0 {
        0
    } else {
        (if is_sep(lines[0]) {
            1nat
        } else {
            0nat
        }) + sep_count(lines.skip(1))
    }
}

/// Grouping of `lines` into blocks: a separator line closes the block
/// being accumulated, every other line joins it with trailing newlines
/// stripped, and the final accumulator is always emitted.
pub open spec fn segment(lines: Seq<Seq<char>>) -> Seq<Seq<Seq<char>>>
    decreases lines.len(),
{
    if lines.len() == 0 {
        seq![Seq::<Seq<char>>::empty()]
    } else if is_sep(lines[0]) {
        seq![Seq::<Seq<char>>::empty()] + segment(lines.skip(1))
    } else {
        let rest = segment(lines.skip(1));
        seq![seq![strip_newlines(lines[0])] + rest[0]] + rest.skip(1)
    }
}

/// A document with `n` separator lines is segmented into exactly `n + 1`
/// blocks, some possibly empty.
pub proof fn lemma_segment_count(lines: Seq<Seq<char>>)
    ensures
        segment(lines).len() == sep_count(lines) + 1,
    decreases lines.len(),
{
    if lines.len() > 0 {
        lemma_segment_count(lines.skip(1));
    }
}

/// Segment `lines` into blocks, splitting on blank-line separators.
pub fn read_to_blocks(lines: &Vec<String>) -> (r: Blocks)
    ensures
        r@ == segment(lines.deep_view()),
{
    let ghost all: Seq<Seq<char>> = lines.deep_view();
    let mut out: Vec<Block> = Vec::new();
    let mut buf: Vec<String> = Vec::new();
    let mut i: usize = 0;
    proof {
        lemma_segment_count(all);
        assert(all.skip(0) =~~= all);
        assert(out.deep_view() =~~= Seq::<Seq<Seq<char>>>::empty());
        assert(buf.deep_view() =~~= Seq::<Seq<char>>::empty());
        assert(segment(all) =~~= out.deep_view() + seq![buf.deep_view() + segment(all)[0]]
            + segment(all).skip(1));
    }
    while i < lines.len()
        invariant
            0 <= i <= lines.len(),
            all == lines.deep_view(),
            segment(all) == out.deep_view() + seq![
                buf.deep_view() + segment(all.skip(i as int))[0],
            ] + segment(all.skip(i as int)).skip(1),
        decreases lines.len() - i,
    {
        let ghost rem = all.skip(i as int);
        let ghost rem1 = all.skip(i + 1);
        proof {
            assert(rem.skip(1) =~~= rem1);
            assert(rem[0] == lines@[i as int]@);
            lemma_segment_count(rem1);
        }
        let line = &lines[i];
        if is_block_separator(line.as_str()) {
            let ghost old_out = out.deep_view();
            let ghost old_buf = buf.deep_view();
            out.push(Block::new(buf));
            buf = Vec::new();
            proof {
                assert(out.deep_view() =~~= old_out.push(old_buf));
                assert(segment(rem) =~~= seq![Seq::<Seq<char>>::empty()] + segment(rem1));
                assert(segment(rem)[0] =~~= Seq::<Seq<char>>::empty());
                assert(old_buf + segment(rem)[0] =~~= old_buf);
                assert(buf.deep_view() =~~= Seq::<Seq<char>>::empty());
                assert(segment(rem1) =~~= seq![segment(rem1)[0]] + segment(rem1).skip(1));
                assert(segment(all) =~~= out.deep_view() + seq![
                    buf.deep_view() + segment(rem1)[0],
                ] + segment(rem1).skip(1));
            }
        } else {
            let ghost old_buf = buf.deep_view();
            buf.push(strip_line(line.as_str()));
            proof {
                assert(buf.deep_view() =~~= old_buf.push(strip_newlines(rem[0])));
                assert(segment(rem) =~~= seq![seq![strip_newlines(rem[0])] + segment(rem1)[0]]
                    + segment(rem1).skip(1));
                assert(segment(rem)[0] =~~= seq![strip_newlines(rem[0])] + segment(rem1)[0]);
                assert(old_buf + segment(rem)[0] =~~= buf.deep_view() + segment(rem1)[0]);
                assert(segment(rem).skip(1) =~~= segment(rem1).skip(1));
                assert(segment(all) =~~= out.deep_view() + seq![
                    buf.deep_view() + segment(rem1)[0],
                ] + segment(rem1).skip(1));
            }
        }
        i = i + 1;
    }
    proof {
        assert(all.skip(i as int) =~~= Seq::<Seq<char>>::empty());
        assert(segment(all.skip(i as int)) =~~= seq![Seq::<Seq<char>>::empty()]);
        assert(segment(all) =~~= out.deep_view() + seq![buf.deep_view()]);
    }
    let ghost old_out = out.deep_view();
    let ghost old_buf = buf.deep_view();
    out.push(Block::new(buf));
    proof {
        assert(out.deep_view() =~~= old_out.push(old_buf));
        assert(out.deep_view() =~~= segment(all));
    }
    Blocks(out)
}

} // verus!
