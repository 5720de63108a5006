//! Paragraphs: the fallback element. The lines of the block are joined
//! with newlines and the result is trimmed at both ends.

use vstd::prelude::*;
use vstd::string::StrSliceExecFns;
use vstd::string::StringExecFns;
use crate::block::Block;
use crate::block::FromBlock;
use crate::html::Html;
use crate::html::HtmlAttribute;
use crate::html::HtmlContents;
use crate::html::ToHtml;

verus! {

/// A paragraph of plain text.
#[derive(Debug, PartialEq)]
pub struct Paragraph {
    pub contents: String,
}

/// The whitespace characters trimmed from the ends of a joined paragraph.
pub open spec fn is_ws(c: char) -> bool {
    c == ' ' || c == '\t' || c == '\n' || c == '\r'
}

/// `s` with trailing whitespace removed.
pub open spec fn trim_end_ws(s: Seq<char>) -> Seq<char>
    decreases s.len(),
{
    if s.len() > 0 && is_ws(s.last()) {
        trim_end_ws(s.drop_last())
    } else {
        s
    }
}

/// `s` with leading whitespace removed.
pub open spec fn trim_start_ws(s: Seq<char>) -> Seq<char>
    decreases s.len(),
{
    if s.len() > 0 && is_ws(s[0]) {
        trim_start_ws(s.skip(1))
    } else {
        s
    }
}

/// `s` with whitespace removed from both ends.
pub open spec fn trim_ws(s: Seq<char>) -> Seq<char> {
    trim_start_ws(trim_end_ws(s))
}

/// The lines of a block joined with a newline between each pair, none
/// before the first or after the last.
pub open spec fn join_lines(b: Seq<Seq<char>>) -> Seq<char>
    decreases b.len(),
{
    if b.len() == 0 {
        Seq::empty()
    } else if b.len() == 1 {
        b[0]
    } else {
        join_lines(b.drop_last()) + seq!['\n'] + b.last()
    }
}

/// The paragraph text of a block: the joined lines, trimmed at both ends.
pub open spec fn para_text(b: Seq<Seq<char>>) -> Seq<char> {
    trim_ws(join_lines(b))
}

/// Trimming trailing whitespace keeps the prefix that ends at the last
/// non-whitespace character.
proof fn lemma_trim_end_is(s: Seq<char>, e: int)
    requires
        0 <= e <= s.len(),
        forall|j: int| e <= j < s.len() ==> is_ws(s[j]),
        e > 0 ==> !is_ws(s[e - 1]),
    ensures
        trim_end_ws(s) == s.take(e),
    decreases s.len(),
{
    if s.len() > 0 && is_ws(s.last()) {
        lemma_trim_end_is(s.drop_last(), e);
        assert(s.drop_last().take(e) =~= s.take(e));
    } else {
        assert(s.take(e) =~= s);
    }
}

/// Trimming leading whitespace keeps the suffix that starts at the first
/// non-whitespace character.
proof fn lemma_trim_start_is(s: Seq<char>, k: int)
    requires
        0 <= k <= s.len(),
        forall|j: int| 0 <= j < k ==> is_ws(s[j]),
        k < s.len() ==> !is_ws(s[k]),
    ensures
        trim_start_ws(s) == s.skip(k),
    decreases s.len(),
{
    if s.len() > 0 && is_ws(s[0]) {
        assert forall|j: int| 0 <= j < k - 1 implies is_ws(s.skip(1)[j]) by {
            assert(s.skip(1)[j] == s[j + 1]);
        }
        if k - 1 < s.skip(1).len() {
            assert(s.skip(1)[k - 1] == s[k]);
        }
        lemma_trim_start_is(s.skip(1), k - 1);
        assert(s.skip(1).skip(k - 1) =~= s.skip(k));
    } else {
        assert(s.skip(k) =~= s);
    }
}

/// Whether `c` is one of the whitespace characters trimmed at the ends.
fn is_ws_char(c: char) -> (r: bool)
    ensures
        r == is_ws(c),
{
    c == ' ' || c == '\t' || c == '\n' || c == '\r'
}

/// `s` as a fresh string with whitespace trimmed from both ends.
fn trim(s: &str) -> (r: String)
    ensures
        r@ == trim_ws(s@),
{
    let n = s.unicode_len();
    let mut e: usize = n;
    while e > 0 && is_ws_char(s.get_char(e - 1))
        invariant
            0 <= e <= n,
            n == s@.len(),
            forall|j: int| e <= j < n ==> is_ws(s@[j]),
        decreases e,
    {
        e = e - 1;
    }
    proof {
        lemma_trim_end_is(s@, e as int);
    }
    let mut k: usize = 0;
    while k < e && is_ws_char(s.get_char(k))
        invariant
            0 <= k <= e <= n,
            n == s@.len(),
            forall|j: int| 0 <= j < k ==> is_ws(s@[j]),
        decreases e - k,
    {
        k = k + 1;
    }
    let t = s.substring_char(k, e);
    proof {
        let trimmed = trim_end_ws(s@);
        assert(trimmed =~= s@.take(e as int));
        assert forall|j: int| 0 <= j < k implies is_ws(trimmed[j]) by {
            assert(trimmed[j] == s@[j]);
        }
        if (k as int) < trimmed.len() {
            assert(trimmed[k as int] == s@[k as int]);
        }
        lemma_trim_start_is(trimmed, k as int);
        assert(t@ =~= trimmed.skip(k as int));
    }
    t.to_owned()
}

impl Paragraph {
    /// A paragraph from its text, kept as it is.
    pub fn new(contents: String) -> (p: Paragraph)
        ensures
            p.contents == contents,
    {
        Paragraph { contents }
    }
}

impl ToHtml for Paragraph {
    /// The node is a `p` tag holding the raw paragraph text as its single
    /// bare content.
    open spec fn html_matches(&self, h: Html) -> bool {
        &&& h.name@ == seq!['p']
        &&& h.attributes@ == Seq::<HtmlAttribute>::empty()
        &&& h.contents matches Some(cs) && cs@ == seq![HtmlContents::Bare(self.contents)]
    }

    fn to_html(&self) -> (h: Html) {
        let name = String::from_str("p");
        proof {
            reveal_strlit("p");
            assert(name@ =~= seq!['p']);
        }
        Html::new_simple(name, self.contents.clone())
    }
}

/// Build the paragraph for a block: its lines joined with newlines, the
/// result trimmed at both ends. An empty block yields the empty
/// paragraph.
pub fn parse_paragraph(b: &Vec<String>) -> (p: Paragraph)
    ensures
        p.contents@ == para_text(b.deep_view()),
{
    let ghost bv = b.deep_view();
    let mut joined = String::new();
    let mut i: usize = 0;
    proof {
        assert(join_lines(bv.take(0)) =~= Seq::<char>::empty());
    }
    while i < b.len()
        invariant
            0 <= i <= b@.len(),
            bv == b.deep_view(),
            joined@ == join_lines(bv.take(i as int)),
        decreases b@.len() - i,
    {
        let ghost prev = joined@;
        if i > 0 {
            crate::text::push_char(&mut joined, '\n');
        }
        joined.append(b[i].as_str());
        proof {
            assert(bv.take(i + 1).drop_last() =~= bv.take(i as int));
            assert(bv.take(i + 1).last() == bv[i as int]);
            if i == 0 {
                assert(joined@ =~= join_lines(bv.take(1)));
            } else {
                assert(joined@ =~= prev + seq!['\n'] + bv[i as int]);
                assert(joined@ =~= join_lines(bv.take(i + 1)));
            }
        }
        i = i + 1;
    }
    proof {
        assert(bv.take(bv.len() as int) =~= bv);
    }
    Paragraph::new(trim(joined.as_str()))
}

impl FromBlock for Paragraph {
    fn from_block(block: Block) -> Option<Paragraph> {
        Option::Some(parse_paragraph(&block.contents))
    }
}

/// Rendering a paragraph escapes its text exactly once: the serialized
/// form is `<p>`, the text with each character escaped, `</p>`. Markup
/// inside the text is therefore shown, never interpreted, and nothing
/// escapes it a second time downstream.
pub proof fn lemma_paragraph_escapes_once(p: Paragraph, h: Html)
    requires
        p.html_matches(h),
    ensures
        crate::html::render_html(h) == seq!['<', 'p', '>'] + crate::html::escape_seq(p.contents@)
            + seq!['<', '/', 'p', '>'],
{
    crate::html::lemma_simple_render(h, seq!['p'], p.contents@);
    assert(seq!['p'].drop_last() =~= Seq::<char>::empty());
    assert(crate::html::escape_seq(Seq::<char>::empty()) == Seq::<char>::empty());
    assert(crate::html::escape_char('p') == seq!['p']);
    assert(crate::html::escape_seq(seq!['p']) =~= seq!['p']);
    assert(crate::html::render_simple(seq!['p'], p.contents@) =~= seq!['<', 'p', '>']
        + crate::html::escape_seq(p.contents@) + seq!['<', '/', 'p', '>']);
}

} // verus!
