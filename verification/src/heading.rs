//! Headings: the pound form (`# Title`) and the underline form
//! (`Title` over a line of `=` or `-`).

use vstd::prelude::*;
use crate::block::Block;
use crate::block::FromBlock;
use crate::html::Html;
use crate::html::HtmlAttribute;
use crate::html::HtmlContents;
use crate::html::ToHtml;
use crate::text::after_leading;
use crate::text::all_chars_are;
use crate::text::all_eq;
use crate::text::leading_run;
use crate::text::push_char;
use crate::text::starting_chars;

verus! {

/// A text heading. `depth` is the level: `# head` has depth 1,
/// `## head` depth 2, and so on.
#[derive(Debug, PartialEq)]
pub struct Heading {
    pub contents: String,
    pub depth: usize,
}

/// The decimal digit character for `d`, when `d` is below ten.
pub open spec fn digit_char(d: nat) -> char {
    ((48 + d) as u8) as char
}

/// The decimal digits of `n`, most significant first.
pub open spec fn dec_digits(n: nat) -> Seq<char>
    decreases n,
{
    if n < 10 {
        seq![digit_char(n)]
    } else {
        dec_digits(n / 10).push(digit_char(n % 10))
    }
}

/// Append the decimal digits of `n` to `out`.
fn push_decimal(n: usize, out: &mut String)
    ensures
        final(out)@ == old(out)@ + dec_digits(n as nat),
    decreases n,
{
    if n >= 10 {
        push_decimal(n / 10, out);
    }
    let d: u8 = (n % 10) as u8;
    push_char(out, (48 + d) as char);
    proof {
        assert((48 + d) as char == digit_char((n % 10) as nat));
        if n < 10 {
            assert(out@ =~= old(out)@ + dec_digits(n as nat));
        } else {
            assert(out@ =~= old(out)@ + dec_digits(n as nat));
        }
    }
}

impl Heading {
    /// A heading from its text and level.
    pub fn new(title: String, depth: usize) -> (h: Heading)
        ensures
            h.contents == title,
            h.depth == depth,
    {
        Heading { contents: title, depth }
    }
}

impl ToHtml for Heading {
    /// The node is a `h<depth>` tag holding the raw heading text as its
    /// single bare content.
    open spec fn html_matches(&self, h: Html) -> bool {
        &&& h.name@ == seq!['h'] + dec_digits(self.depth as nat)
        &&& h.attributes@ == Seq::<HtmlAttribute>::empty()
        &&& h.contents matches Some(cs) && cs@ == seq![HtmlContents::Bare(self.contents)]
    }

    fn to_html(&self) -> (h: Html) {
        let mut name = String::new();
        push_char(&mut name, 'h');
        push_decimal(self.depth, &mut name);
        proof {
            assert(name@ =~= seq!['h'] + dec_digits(self.depth as nat));
        }
        Html::new_simple(name, self.contents.clone())
    }
}

/// The pound heading form applies: the block is a single line whose very
/// first character is `'#'`, with no whitespace before it.
pub open spec fn pound_matches(b: Seq<Seq<char>>) -> bool {
    b.len() == 1 && b[0].len() > 0 && b[0][0] == '#'
}

/// The level of a pound heading: the length of the leading `'#'` run.
pub open spec fn pound_level(b: Seq<Seq<char>>) -> nat {
    leading_run(b[0], '#')
}

/// The text of a pound heading: the line with the leading `'#'` run
/// removed and leading spaces trimmed; the right end stays as it is.
pub open spec fn pound_text(b: Seq<Seq<char>>) -> Seq<char> {
    after_leading(b[0], '#')
}

/// The underline heading form applies: the block is exactly two lines and
/// the second consists entirely of `'='` or entirely of `'-'`.
pub open spec fn line_matches(b: Seq<Seq<char>>) -> bool {
    b.len() == 2 && (all_eq(b[1], '=') || all_eq(b[1], '-'))
}

/// The level of an underline heading: 1 under `'='`, 2 under `'-'`.
pub open spec fn line_level(b: Seq<Seq<char>>) -> nat {
    if all_eq(b[1], '=') {
        1
    } else {
        2
    }
}

/// One of the two heading forms applies to the block.
pub open spec fn heading_matches(b: Seq<Seq<char>>) -> bool {
    pound_matches(b) || line_matches(b)
}

/// The two heading forms are mutually exclusive by construction: the
/// pound form requires exactly one line in the block, the underline form
/// exactly two, so no block can match both.
pub proof fn lemma_heading_forms_exclusive(b: Seq<Seq<char>>)
    ensures
        !(pound_matches(b) && line_matches(b)),
{
}

/// Recognize a pound heading: a single line starting with `'#'` at
/// position 0. The `'#'` run gives the level, the rest of the line with
/// leading spaces trimmed gives the text.
pub fn pound_heading(b: &Vec<String>) -> (r: Option<Heading>)
    ensures
        r is Some <==> pound_matches(b.deep_view()),
        r matches Some(h) ==> h.depth == pound_level(b.deep_view()) && h.contents@ == pound_text(
            b.deep_view(),
        ),
{
    if b.len() != 1 {
        return Option::None;
    }
    match starting_chars(b[0].as_str(), '#') {
        Option::Some(p) => {
            let (title, count) = p;
            Option::Some(Heading::new(title, count))
        },
        Option::None => Option::None,
    }
}

/// Recognize an underline heading: exactly two lines, the second all
/// `'='` (level 1) or all `'-'` (level 2). The first line, unmodified, is
/// the text.
pub fn line_heading(b: &Vec<String>) -> (r: Option<Heading>)
    ensures
        r is Some <==> line_matches(b.deep_view()),
        r matches Some(h) ==> h.depth == line_level(b.deep_view()) && h.contents@ == b.deep_view()[0],
{
    if b.len() != 2 {
        return Option::None;
    }
    if all_chars_are('=', b[1].as_str()) {
        return Option::Some(Heading::new(b[0].clone(), 1));
    }
    if all_chars_are('-', b[1].as_str()) {
        return Option::Some(Heading::new(b[0].clone(), 2));
    }
    Option::None
}

/// Recognize either heading form, the pound form first.
pub fn parse_heading(b: &Vec<String>) -> (r: Option<Heading>)
    ensures
        r is Some <==> heading_matches(b.deep_view()),
        r matches Some(h) ==> (if pound_matches(b.deep_view()) {
            h.depth == pound_level(b.deep_view()) && h.contents@ == pound_text(b.deep_view())
        } else {
            h.depth == line_level(b.deep_view()) && h.contents@ == b.deep_view()[0]
        }),
{
    match pound_heading(b) {
        Option::Some(h) => {
            return Option::Some(h);
        },
        Option::None => {},
    }
    line_heading(b)
}

impl FromBlock for Heading {
    fn from_block(block: Block) -> Option<Heading> {
        parse_heading(&block.contents)
    }
}

} // verus!
