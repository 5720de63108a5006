//! The HTML node model and its serializer. Text is escaped for the five
//! HTML metacharacters exactly once, at serialization time.

use vstd::prelude::*;
use vstd::string::StrSliceExecFns;
use crate::text::push_char;

verus! {

/// An HTML attribute: in `<a href=...>Example</a>`, `href` is the name
/// and the link target the contents.
#[derive(Debug)]
pub struct HtmlAttribute {
    pub name: String,
    pub contents: String,
}

/// The contents of an HTML tag: either a bare run of text, or a nested
/// tag.
#[derive(Debug)]
pub enum HtmlContents {
    Bare(String),
    Tag(Html),
}

/// An HTML tag, with a name, attributes and optional nested contents.
/// A tag whose contents are absent is serialized self-closing.
#[derive(Debug)]
pub struct Html {
    pub name: String,
    pub contents: Option<Vec<HtmlContents>>,
    pub attributes: Vec<HtmlAttribute>,
}

/// What one character contributes to escaped output: the five HTML
/// metacharacters become entities, every other character stands as it is.
pub open spec fn escape_char(c: char) -> Seq<char> {
    if c == '&' {
        seq!['&', 'a', 'm', 'p', ';']
    } else if c == '<' {
        seq!['&', 'l', 't', ';']
    } else if c == '>' {
        seq!['&', 'g', 't', ';']
    } else if c == '"' {
        seq!['&', 'q', 'u', 'o', 't', ';']
    } else if c == '\'' {
        seq!['&', '#', '3', '9', ';']
    } else {
        seq![c]
    }
}

/// `s` with every character escaped, applied once to each character.
pub open spec fn escape_seq(s: Seq<char>) -> Seq<char>
    decreases s.len(),
{
    if s.len() == 0 {
        Seq::empty()
    } else {
        escape_seq(s.drop_last()) + escape_char(s.last())
    }
}

/// One serialized attribute: a space, the escaped name, `=`, the escaped
/// value. No quoting is added beyond the escaping.
pub open spec fn render_attr(a: HtmlAttribute) -> Seq<char> {
    seq![' '] + escape_seq(a.name@) + seq!['='] + escape_seq(a.contents@)
}

/// The serialized attribute list, in list order.
pub open spec fn render_attrs(attrs: Seq<HtmlAttribute>) -> Seq<char>
    decreases attrs.len(),
{
    if attrs.len() == 0 {
        Seq::empty()
    } else {
        render_attrs(attrs.drop_last()) + render_attr(attrs.last())
    }
}

/// The serialization of a tag: `<name` and the attributes, then either
/// ` />` when the contents are absent, or `>`, the contents in order, and
/// the closing `</name>`.
pub open spec fn render_html(h: Html) -> Seq<char>
    decreases h,
{
    let head = seq!['<'] + escape_seq(h.name@) + render_attrs(h.attributes@);
    match h.contents {
        Option::None => head + seq![' ', '/', '>'],
        Option::Some(cs) => head + seq!['>'] + render_nodes(cs@) + seq!['<', '/'] + escape_seq(
            h.name@,
        ) + seq!['>'],
    }
}

/// The serialization of a sequence of tag contents, in order, with no
/// separator.
pub open spec fn render_nodes(cs: Seq<HtmlContents>) -> Seq<char>
    decreases cs,
{
    if cs.len() == 0 {
        Seq::empty()
    } else {
        render_nodes(cs.drop_last()) + render_node(cs.last())
    }
}

/// The serialization of one tag content: bare text is escaped, a nested
/// tag recurses.
pub open spec fn render_node(c: HtmlContents) -> Seq<char>
    decreases c,
{
    match c {
        HtmlContents::Bare(s) => escape_seq(s@),
        HtmlContents::Tag(h) => render_html(h),
    }
}

/// The serialization of a tag with no attributes holding one bare run of
/// text: `<name>`, the escaped text, `</name>`.
pub open spec fn render_simple(name: Seq<char>, text: Seq<char>) -> Seq<char> {
    seq!['<'] + escape_seq(name) + seq!['>'] + escape_seq(text) + seq!['<', '/'] + escape_seq(name)
        + seq!['>']
}

/// A tag with no attributes and a single bare text content serializes to
/// the simple `<name>text</name>` form, the text escaped exactly once.
pub proof fn lemma_simple_render(h: Html, name: Seq<char>, text: Seq<char>)
    requires
        h.name@ == name,
        h.attributes@ == Seq::<HtmlAttribute>::empty(),
        h.contents matches Some(cs) && cs@.len() == 1 && (cs@[0] matches HtmlContents::Bare(s)
            && s@ == text),
    ensures
        render_html(h) == render_simple(name, text),
{
    let cs = h.contents->0;
    assert(cs@.drop_last() =~= Seq::<HtmlContents>::empty());
    assert(cs@.last() == cs@[0]);
    assert(render_nodes(Seq::<HtmlContents>::empty()) == Seq::<char>::empty());
    assert(render_node(cs@[0]) == escape_seq(text));
    assert(render_nodes(cs@) =~= escape_seq(text));
    assert(render_html(h) =~= render_simple(name, text));
}

/// Append the escaped form of `s` to `out`.
fn escape_into(s: &str, out: &mut String)
    ensures
        final(out)@ == old(out)@ + escape_seq(s@),
{
    let n = s.unicode_len();
    let mut i: usize = 0;
    proof {
        assert(escape_seq(s@.take(0)) =~= Seq::<char>::empty());
        assert(out@ =~= out@ + escape_seq(s@.take(0)));
    }
    while i < n
        invariant
            0 <= i <= n,
            n == s@.len(),
            out@ == old(out)@ + escape_seq(s@.take(i as int)),
        decreases n - i,
    {
        let c = s.get_char(i);
        let ghost prev = out@;
        if c == '&' {
            push_char(out, '&');
            push_char(out, 'a');
            push_char(out, 'm');
            push_char(out, 'p');
            push_char(out, ';');
        } else if c == '<' {
            push_char(out, '&');
            push_char(out, 'l');
            push_char(out, 't');
            push_char(out, ';');
        } else if c == '>' {
            push_char(out, '&');
            push_char(out, 'g');
            push_char(out, 't');
            push_char(out, ';');
        } else if c == '"' {
            push_char(out, '&');
            push_char(out, 'q');
            push_char(out, 'u');
            push_char(out, 'o');
            push_char(out, 't');
            push_char(out, ';');
        } else if c == '\'' {
            push_char(out, '&');
            push_char(out, '#');
            push_char(out, '3');
            push_char(out, '9');
            push_char(out, ';');
        } else {
            push_char(out, c);
        }
        proof {
            assert(out@ =~= prev + escape_char(c));
            assert(s@.take(i + 1).drop_last() =~= s@.take(i as int));
            assert(s@.take(i + 1).last() == c);
            assert(out@ =~= old(out)@ + escape_seq(s@.take(i + 1)));
        }
        i = i + 1;
    }
    proof {
        assert(s@.take(n as int) =~= s@);
    }
}

/// Append the serialization of `c` to `out`.
fn render_node_into(c: &HtmlContents, out: &mut String)
    ensures
        final(out)@ == old(out)@ + render_node(*c),
    decreases *c,
{
    match c {
        HtmlContents::Bare(s) => escape_into(s.as_str(), out),
        HtmlContents::Tag(h) => render_into(h, out),
    }
}

/// Append the serialization of `h` to `out`.
fn render_into(h: &Html, out: &mut String)
    ensures
        final(out)@ == old(out)@ + render_html(*h),
    decreases *h,
{
    push_char(out, '<');
    escape_into(h.name.as_str(), out);
    let ghost head = seq!['<'] + escape_seq(h.name@);
    let mut j: usize = 0;
    proof {
        assert(render_attrs(h.attributes@.take(0)) =~= Seq::<char>::empty());
        assert(out@ =~= old(out)@ + head + render_attrs(h.attributes@.take(0)));
    }
    while j < h.attributes.len()
        invariant
            0 <= j <= h.attributes@.len(),
            out@ == old(out)@ + head + render_attrs(h.attributes@.take(j as int)),
            head == seq!['<'] + escape_seq(h.name@),
        decreases h.attributes@.len() - j,
    {
        let a = &h.attributes[j];
        let ghost prev = out@;
        push_char(out, ' ');
        escape_into(a.name.as_str(), out);
        push_char(out, '=');
        escape_into(a.contents.as_str(), out);
        proof {
            assert(out@ =~= prev + render_attr(h.attributes@[j as int]));
            assert(h.attributes@.take(j + 1).drop_last() =~= h.attributes@.take(j as int));
            assert(h.attributes@.take(j + 1).last() == h.attributes@[j as int]);
            assert(out@ =~= old(out)@ + head + render_attrs(h.attributes@.take(j + 1)));
        }
        j = j + 1;
    }
    proof {
        assert(h.attributes@.take(h.attributes@.len() as int) =~= h.attributes@);
    }
    match &h.contents {
        Option::None => {
            push_char(out, ' ');
            push_char(out, '/');
            push_char(out, '>');
            proof {
                assert(out@ =~= old(out)@ + render_html(*h));
            }
        },
        Option::Some(cs) => {
            push_char(out, '>');
            let ghost mid = old(out)@ + head + render_attrs(h.attributes@) + seq!['>'];
            let mut k: usize = 0;
            proof {
                assert(render_nodes(cs@.take(0)) =~= Seq::<char>::empty());
                assert(out@ =~= mid + render_nodes(cs@.take(0)));
            }
            while k < cs.len()
                invariant
                    0 <= k <= cs@.len(),
                    out@ == mid + render_nodes(cs@.take(k as int)),
                    *cs == h.contents->0,
                    h.contents is Some,
                decreases cs@.len() - k,
            {
                let ghost prev = out@;
                proof {
                    assert(decreases_to!(*h => h.contents));
                    assert(decreases_to!(h.contents => h.contents->0));
                    assert(decreases_to!(h.contents->0 => h.contents->0@));
                    assert(decreases_to!(h.contents->0@ => h.contents->0@[k as int]));
                }
                render_node_into(&cs[k], out);
                proof {
                    assert(cs@.take(k + 1).drop_last() =~= cs@.take(k as int));
                    assert(cs@.take(k + 1).last() == cs@[k as int]);
                    assert(out@ =~= mid + render_nodes(cs@.take(k + 1)));
                }
                k = k + 1;
            }
            proof {
                assert(cs@.take(cs@.len() as int) =~= cs@);
            }
            push_char(out, '<');
            push_char(out, '/');
            escape_into(h.name.as_str(), out);
            push_char(out, '>');
            proof {
                assert(out@ =~= old(out)@ + render_html(*h));
            }
        },
    }
}

impl Html {
    /// Create a tag from its name, contents and attributes.
    pub fn new(name: String, contents: Option<Vec<HtmlContents>>, attributes: Vec<HtmlAttribute>)
        -> (h: Html)
        ensures
            h.name == name,
            h.contents == contents,
            h.attributes == attributes,
    {
        Html { name, contents, attributes }
    }

    /// Create a tag with a name only; it serializes self-closing until
    /// contents are added.
    pub fn new_empty(name: String) -> (h: Html)
        ensures
            h.name == name,
            h.contents is None,
            h.attributes@ == Seq::<HtmlAttribute>::empty(),
    {
        Html { name, contents: Option::None, attributes: Vec::new() }
    }

    /// Create a tag holding one bare run of text.
    pub fn new_simple(name: String, contents: String) -> (h: Html)
        ensures
            h.name == name,
            h.attributes@ == Seq::<HtmlAttribute>::empty(),
            h.contents matches Some(cs) && cs@ == seq![HtmlContents::Bare(contents)],
    {
        let mut cs: Vec<HtmlContents> = Vec::new();
        cs.push(HtmlContents::Bare(contents));
        proof {
            assert(cs@ =~= seq![HtmlContents::Bare(contents)]);
        }
        Html { name, contents: Option::Some(cs), attributes: Vec::new() }
    }

    /// Append a nested tag to this tag's contents.
    pub fn add_tag(&mut self, tag: Html)
        ensures
            final(self).name == old(self).name,
            final(self).attributes == old(self).attributes,
            final(self).contents matches Some(cs) && cs@ == (match old(self).contents {
                Option::Some(c) => c@,
                Option::None => Seq::<HtmlContents>::empty(),
            }).push(HtmlContents::Tag(tag)),
    {
        match &mut self.contents {
            Option::Some(contents) => {
                contents.push(HtmlContents::Tag(tag));
            },
            Option::None => {
                let mut cs: Vec<HtmlContents> = Vec::new();
                cs.push(HtmlContents::Tag(tag));
                proof {
                    assert(cs@ =~= Seq::<HtmlContents>::empty().push(
                        HtmlContents::Tag(tag),
                    ));
                }
                self.contents = Option::Some(cs);
            },
        }
    }

    /// Append a bare run of text to this tag's contents.
    pub fn add_string(&mut self, s: String)
        ensures
            final(self).name == old(self).name,
            final(self).attributes == old(self).attributes,
            final(self).contents matches Some(cs) && cs@ == (match old(self).contents {
                Option::Some(c) => c@,
                Option::None => Seq::<HtmlContents>::empty(),
            }).push(HtmlContents::Bare(s)),
    {
        match &mut self.contents {
            Option::Some(contents) => {
                contents.push(HtmlContents::Bare(s));
            },
            Option::None => {
                let mut cs: Vec<HtmlContents> = Vec::new();
                cs.push(HtmlContents::Bare(s));
                proof {
                    assert(cs@ =~= Seq::<HtmlContents>::empty().push(
                        HtmlContents::Bare(s),
                    ));
                }
                self.contents = Option::Some(cs);
            },
        }
    }

    /// The contents as a slice, when present.
    pub fn slice_contents(&self) -> (r: Option<&[HtmlContents]>)
        ensures
            r is Some <==> self.contents is Some,
            r matches Some(sl) ==> sl@ == self.contents->0@,
    {
        match &self.contents {
            Option::Some(contents) => Option::Some(contents.as_slice()),
            Option::None => Option::None,
        }
    }

    /// Serialize this tag, depth first, with all text escaped.
    pub fn to_string(&self) -> (r: String)
        ensures
            r@ == render_html(*self),
    {
        let mut out = String::new();
        render_into(self, &mut out);
        proof {
            assert(Seq::<char>::empty() + render_html(*self) =~= render_html(*self));
        }
        out
    }
}

/// A value that can build its HTML representation.
pub trait ToHtml {
    /// The relation between a value and the HTML node built for it.
    spec fn html_matches(&self, h: Html) -> bool;

    /// Build the HTML node for this value.
    fn to_html(&self) -> (h: Html)
        ensures
            self.html_matches(h),
    ;
}

} // verus!
