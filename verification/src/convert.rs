//! The classifier and the pipeline tail: one structural element per
//! block, recognizers tried in fixed priority order, and the rendering
//! of a whole document to its HTML string.

use vstd::prelude::*;
use vstd::string::StringExecFns;
use crate::block::Block;
use crate::blocks::Blocks;
use crate::bulletlist::BulletElement;
use crate::bulletlist::blank_after_trim;
use crate::bulletlist::bullet_item;
use crate::bulletlist::bullet_matches;
use crate::bulletlist::left_trimmed;
use crate::bulletlist::parse_bulletlist;
use crate::heading::heading_matches;
use crate::heading::line_level;
use crate::heading::parse_heading;
use crate::heading::pound_level;
use crate::heading::pound_matches;
use crate::heading::pound_text;
use crate::html::ToHtml;
use crate::paragraph::para_text;
use crate::paragraph::parse_paragraph;
use crate::structure::MarkdownStructure;
use crate::structure::lemma_structure_render;
use crate::structure::render_structure;

verus! {

/// Classification of one block: the heading recognizers come first, then
/// the bullet list, and every block that matches neither falls through to
/// a paragraph. The relation is total: every block is related to exactly
/// one shape of element.
pub open spec fn parse_block_post(bv: Seq<Seq<char>>, m: MarkdownStructure) -> bool {
    if heading_matches(bv) {
        m matches MarkdownStructure::MDH(h) && (if pound_matches(bv) {
            h.depth == pound_level(bv) && h.contents@ == pound_text(bv)
        } else {
            h.depth == line_level(bv) && h.contents@ == bv[0]
        })
    } else if bullet_matches(bv) {
        m matches MarkdownStructure::MDB(l) && l.tag@ == seq!['u', 'l'] && l.contents@.len()
            == bv.len() && (forall|i: int|
            0 <= i < bv.len() ==> ((#[trigger] l.contents@[i]) matches BulletElement::Lone(bl)
                && bl.contents@ == bullet_item(bv[i]) && bl.tag@ == seq!['l', 'i']))
    } else {
        m matches MarkdownStructure::MDP(p) && p.contents@ == para_text(bv)
    }
}

/// Classification is total and never fails: every block, the empty block
/// included, is classified, and any two classifications of one block
/// agree on the variant.
pub proof fn lemma_classify_total(bv: Seq<Seq<char>>, m1: MarkdownStructure, m2: MarkdownStructure)
    requires
        parse_block_post(bv, m1),
        parse_block_post(bv, m2),
    ensures
        m1 is MDH || m1 is MDP || m1 is MDB,
        m1 is MDH <==> m2 is MDH,
        m1 is MDP <==> m2 is MDP,
        m1 is MDB <==> m2 is MDB,
{
}

/// A block that mixes `-` and `*` markers across its lines is never a
/// bullet list: it falls through to the paragraph fallback whenever no
/// heading form applies.
pub proof fn lemma_mixed_markers(bv: Seq<Seq<char>>, i: int, j: int, m: MarkdownStructure)
    requires
        0 <= i < bv.len(),
        0 <= j < bv.len(),
        !blank_after_trim(bv[i]),
        !blank_after_trim(bv[j]),
        left_trimmed(bv[i])[0] == '-',
        left_trimmed(bv[j])[0] == '*',
        parse_block_post(bv, m),
    ensures
        !(m is MDB),
        !heading_matches(bv) ==> (m matches MarkdownStructure::MDP(p) && p.contents@ == para_text(
            bv,
        )),
{
    assert(!bullet_matches(bv));
}

/// Classify one block, trying the recognizers in priority order:
/// headings, then bullet lists, then the paragraph fallback. Total:
/// every block, the empty block included, yields exactly one element.
pub fn parse_block(block: &Block) -> (m: MarkdownStructure)
    ensures
        parse_block_post(block@, m),
{
    match parse_heading(&block.contents) {
        Option::Some(heading) => {
            return MarkdownStructure::MDH(heading);
        },
        Option::None => {},
    }
    match parse_bulletlist(&block.contents) {
        Option::Some(bullets) => {
            return MarkdownStructure::MDB(bullets);
        },
        Option::None => {},
    }
    MarkdownStructure::MDP(parse_paragraph(&block.contents))
}

/// Classify every block of a document, in source order.
pub fn convert(blocks: Blocks) -> (r: Vec<MarkdownStructure>)
    ensures
        r@.len() == blocks@.len(),
        forall|i: int| 0 <= i < blocks@.len() ==> parse_block_post(blocks@[i], #[trigger] r@[i]),
{
    let mut markdown: Vec<MarkdownStructure> = Vec::new();
    let mut i: usize = 0;
    let n = blocks.len();
    while i < n
        invariant
            0 <= i <= n,
            n == blocks@.len(),
            markdown@.len() == i,
            forall|j: int| 0 <= j < i ==> parse_block_post(blocks@[j], #[trigger] markdown@[j]),
        decreases n - i,
    {
        let block = &blocks.0[i];
        proof {
            assert(block@ == blocks@[i as int]);
        }
        markdown.push(parse_block(block));
        i = i + 1;
    }
    markdown
}

/// What a whole document serializes to: each element's serialization, in
/// document order, with no separator between elements.
pub open spec fn render_doc(ms: Seq<MarkdownStructure>) -> Seq<char>
    decreases ms.len(),
{
    if ms.len() == 0 {
        Seq::empty()
    } else {
        render_doc(ms.drop_last()) + render_structure(ms.last())
    }
}

/// Render a document: each element is built into its HTML node and
/// serialized, and the pieces are concatenated in document order.
pub fn render_document(doc: &Vec<MarkdownStructure>) -> (r: String)
    ensures
        r@ == render_doc(doc@),
{
    let mut out = String::new();
    let mut i: usize = 0;
    proof {
        assert(render_doc(doc@.take(0)) =~= Seq::<char>::empty());
    }
    while i < doc.len()
        invariant
            0 <= i <= doc@.len(),
            out@ == render_doc(doc@.take(i as int)),
        decreases doc@.len() - i,
    {
        let html = doc[i].to_html();
        let piece = html.to_string();
        out.append(piece.as_str());
        proof {
            lemma_structure_render(doc@[i as int], html);
            assert(doc@.take(i + 1).drop_last() =~= doc@.take(i as int));
            assert(doc@.take(i + 1).last() == doc@[i as int]);
            assert(out@ =~= render_doc(doc@.take(i + 1)));
        }
        i = i + 1;
    }
    proof {
        assert(doc@.take(doc@.len() as int) =~= doc@);
    }
    out
}

} // verus!
