//! The classified structural element of one block, and what each element
//! serializes to.

use vstd::prelude::*;
use crate::bulletlist::BulletList;
use crate::bulletlist::lemma_bullet_list_render;
use crate::bulletlist::render_bullet_list;
use crate::heading::Heading;
use crate::heading::dec_digits;
use crate::html::Html;
use crate::html::ToHtml;
use crate::html::lemma_simple_render;
use crate::html::render_html;
use crate::html::render_simple;
use crate::paragraph::Paragraph;

verus! {

/// The structural element classified for one block: a heading, a
/// paragraph, or a bulleted list. Exactly one variant is produced per
/// block.
#[derive(Debug)]
pub enum MarkdownStructure {
    MDH(Heading),
    MDP(Paragraph),
    MDB(BulletList),
}

impl ToHtml for MarkdownStructure {
    /// The node is whatever the wrapped element builds.
    open spec fn html_matches(&self, h: Html) -> bool {
        match self {
            MarkdownStructure::MDH(heading) => heading.html_matches(h),
            MarkdownStructure::MDP(paragraph) => paragraph.html_matches(h),
            MarkdownStructure::MDB(bulletlist) => bulletlist.html_matches(h),
        }
    }

    fn to_html(&self) -> (h: Html) {
        match self {
            MarkdownStructure::MDH(heading) => heading.to_html(),
            MarkdownStructure::MDP(paragraph) => paragraph.to_html(),
            MarkdownStructure::MDB(bulletlist) => bulletlist.to_html(),
        }
    }
}

/// What one structural element serializes to: a heading as
/// `<h<level>>text</h<level>>`, a paragraph as `<p>text</p>`, a list as
/// its elements inside `<ul>`; all text escaped.
pub open spec fn render_structure(m: MarkdownStructure) -> Seq<char> {
    match m {
        MarkdownStructure::MDH(h) => render_simple(
            seq!['h'] + dec_digits(h.depth as nat),
            h.contents@,
        ),
        MarkdownStructure::MDP(p) => render_simple(seq!['p'], p.contents@),
        MarkdownStructure::MDB(l) => render_bullet_list(l),
    }
}

/// The HTML node built for a structural element serializes to that
/// element's own serialization.
pub proof fn lemma_structure_render(m: MarkdownStructure, h: Html)
    requires
        m.html_matches(h),
    ensures
        render_html(h) == render_structure(m),
{
    match m {
        MarkdownStructure::MDH(hd) => {
            lemma_simple_render(h, seq!['h'] + dec_digits(hd.depth as nat), hd.contents@);
        },
        MarkdownStructure::MDP(p) => {
            lemma_simple_render(h, seq!['p'], p.contents@);
        },
        MarkdownStructure::MDB(l) => {
            lemma_bullet_list_render(l, h);
        },
    }
}

} // verus!
