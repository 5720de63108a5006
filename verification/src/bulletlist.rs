//! Bulleted lists: blocks whose lines all start, after leading
//! whitespace, with one agreed marker, `-` or `*`. Lists are flat; no
//! nesting is ever produced by the recognizer.

use vstd::prelude::*;
use vstd::string::StrSliceExecFns;
use vstd::string::StringExecFns;
use crate::block::Block;
use crate::block::FromBlock;
use crate::html::Html;
use crate::html::HtmlAttribute;
use crate::html::HtmlContents;
use crate::html::ToHtml;

verus! {

/// Length of the run of spaces and tabs at the front of `s`.
pub open spec fn ws_run(s: Seq<char>) -> nat
    decreases s.len(),
{
    if s.len() > 0 && (s[0] == ' ' || s[0] == '\t') {
        ws_run(s.skip(1)) + 1
    } else {
        0
    }
}

/// `s` with leading spaces and tabs removed.
pub open spec fn left_trimmed(s: Seq<char>) -> Seq<char> {
    s.skip(ws_run(s) as int)
}

/// `s` holds nothing but spaces and tabs.
pub open spec fn blank_after_trim(s: Seq<char>) -> bool {
    ws_run(s) == s.len()
}

/// The run of leading whitespace is a maximal prefix of spaces and tabs.
proof fn lemma_ws_run(s: Seq<char>)
    ensures
        ws_run(s) <= s.len(),
        forall|i: int| 0 <= i < ws_run(s) ==> s[i] == ' ' || s[i] == '\t',
        ws_run(s) < s.len() ==> !(s[ws_run(s) as int] == ' ' || s[ws_run(s) as int] == '\t'),
    decreases s.len(),
{
    if s.len() > 0 && (s[0] == ' ' || s[0] == '\t') {
        lemma_ws_run(s.skip(1));
        assert forall|i: int| 0 <= i < ws_run(s) implies s[i] == ' ' || s[i] == '\t' by {
            if i > 0 {
                assert(s.skip(1)[i - 1] == s[i]);
            }
        }
        if ws_run(s) < s.len() {
            assert(s.skip(1)[ws_run(s) - 1] == s[ws_run(s) as int]);
        }
    }
}

/// A maximal prefix of spaces and tabs has the length `ws_run` gives.
proof fn lemma_ws_run_is(s: Seq<char>, k: int)
    requires
        0 <= k <= s.len(),
        forall|i: int| 0 <= i < k ==> s[i] == ' ' || s[i] == '\t',
        k < s.len() ==> !(s[k] == ' ' || s[k] == '\t'),
    ensures
        ws_run(s) == k,
    decreases s.len(),
{
    if s.len() > 0 && (s[0] == ' ' || s[0] == '\t') {
        assert forall|i: int| 0 <= i < k - 1 implies s.skip(1)[i] == ' ' || s.skip(1)[i] == '\t' by {
            assert(s.skip(1)[i] == s[i + 1]);
        }
        if k - 1 < s.skip(1).len() {
            assert(s.skip(1)[k - 1] == s[k]);
        }
        lemma_ws_run_is(s.skip(1), k - 1);
    }
}

/// Length of the run of spaces and tabs at the front of `s`.
fn ws_run_length(s: &str) -> (k: usize)
    ensures
        k == ws_run(s@),
{
    let n = s.unicode_len();
    let mut k: usize = 0;
    while k < n && is_marker_ws(s.get_char(k))
        invariant
            0 <= k <= n,
            n == s@.len(),
            forall|i: int| 0 <= i < k ==> s@[i] == ' ' || s@[i] == '\t',
        decreases n - k,
    {
        k = k + 1;
    }
    proof {
        lemma_ws_run_is(s@, k as int);
    }
    k
}

/// Whether `c` counts as leading whitespace before a marker.
fn is_marker_ws(c: char) -> (r: bool)
    ensures
        r == (c == ' ' || c == '\t'),
{
    c == ' ' || c == '\t'
}

/// The bullet recognizer applies: the block is non-empty, no line is
/// blank after left-trimming, and the first non-whitespace character of
/// every line is one agreed marker, `-` or `*`.
pub open spec fn bullet_matches(b: Seq<Seq<char>>) -> bool {
    &&& b.len() >= 1
    &&& forall|i: int| 0 <= i < b.len() ==> !blank_after_trim(b[i])
    &&& (left_trimmed(b[0])[0] == '-' || left_trimmed(b[0])[0] == '*')
    &&& forall|i: int| 0 <= i < b.len() ==> (#[trigger] left_trimmed(b[i]))[0] == left_trimmed(
        b[0],
    )[0]
}

/// The item text of one bullet line: the line left-trimmed, the single
/// marker character removed, and the remainder left-trimmed again.
pub open spec fn bullet_item(s: Seq<char>) -> Seq<char> {
    let t = left_trimmed(s).skip(1);
    t.skip(ws_run(t) as int)
}

/// One list item.
///
/// `contents` is the item text; `tag` is the tag used when the item is
/// rendered, `li` for ordinary HTML.
#[derive(Debug, PartialEq)]
pub struct Bullet {
    pub contents: String,
    pub tag: String,
}

/// An element of a bulleted list: a lone item, or a nested sublist.
#[derive(Debug, PartialEq)]
pub enum BulletElement {
    Nested(BulletList),
    Lone(Bullet),
}

/// A bulleted list of elements, with the tag used when the list itself
/// is rendered.
#[derive(Debug, PartialEq)]
pub struct BulletList {
    pub contents: Vec<BulletElement>,
    pub tag: String,
}

impl Bullet {
    /// A list item from its text, rendered with the `li` tag.
    pub fn new(contents: String) -> (b: Bullet)
        ensures
            b.contents == contents,
            b.tag@ == seq!['l', 'i'],
    {
        let tag = String::from_str("li");
        proof {
            reveal_strlit("li");
            assert(tag@ =~= seq!['l', 'i']);
        }
        Bullet { contents, tag }
    }
}

impl BulletList {
    /// A new empty ordered list (`ol` is the tag).
    pub fn new_ordered() -> (l: BulletList)
        ensures
            l.contents@ == Seq::<BulletElement>::empty(),
            l.tag@ == seq!['o', 'l'],
    {
        let tag = String::from_str("ol");
        proof {
            reveal_strlit("ol");
            assert(tag@ =~= seq!['o', 'l']);
        }
        BulletList { contents: Vec::new(), tag }
    }

    /// A new empty unordered list (`ul` is the tag).
    pub fn new_unordered() -> (l: BulletList)
        ensures
            l.contents@ == Seq::<BulletElement>::empty(),
            l.tag@ == seq!['u', 'l'],
    {
        let tag = String::from_str("ul");
        proof {
            reveal_strlit("ul");
            assert(tag@ =~= seq!['u', 'l']);
        }
        BulletList { contents: Vec::new(), tag }
    }

    /// Append an element to this list.
    pub fn push(&mut self, elem: BulletElement)
        ensures
            final(self).contents@ == old(self).contents@.push(elem),
            final(self).tag == old(self).tag,
    {
        self.contents.push(elem);
    }

    /// Whether a line is indented as a sublist item: it starts with
    /// spaces whose count is a multiple of four. Returns the rest of the
    /// line, with the indent trimmed, along with the indent width. Kept
    /// for indent detection; no recognizer produces nested lists.
    pub fn is_numeric_bullet(s: String) -> (r: Option<(String, usize)>)
        ensures
            r is Some <==> (s@.len() > 0 && s@[0] == ' ' && crate::text::leading_run(s@, ' ') % 4
                == 0),
            r matches Some(p) ==> p.1 == crate::text::leading_run(s@, ' ') && p.0@
                == crate::text::after_leading(s@, ' '),
    {
        match crate::text::starting_chars(s.as_str(), ' ') {
            Option::Some(p) => {
                if p.1 % 4 == 0 {
                    Option::Some(p)
                } else {
                    Option::None
                }
            },
            Option::None => Option::None,
        }
    }

    /// Append a lone string item to this list.
    pub fn push_string(&mut self, s: String)
        ensures
            final(self).tag == old(self).tag,
            final(self).contents@.len() == old(self).contents@.len() + 1,
            final(self).contents@.drop_last() == old(self).contents@,
            final(self).contents@.last() matches BulletElement::Lone(b) && b.contents == s
                && b.tag@ == seq!['l', 'i'],
    {
        self.push(BulletElement::Lone(Bullet::new(s)));
        proof {
            assert(self.contents@.drop_last() =~= old(self).contents@);
        }
    }
}

/// Recognize a bulleted list. The first pass checks that every line's
/// first non-whitespace character is one agreed marker; blocks that are
/// empty, hold a blank line, or mix markers fall through. The second
/// pass, reached only when the block validated, produces one item per
/// line, in order.
pub fn parse_bulletlist(b: &Vec<String>) -> (r: Option<BulletList>)
    ensures
        r is Some <==> bullet_matches(b.deep_view()),
        r matches Some(l) ==> {
            &&& l.tag@ == seq!['u', 'l']
            &&& l.contents@.len() == b.deep_view().len()
            &&& forall|i: int|
                0 <= i < l.contents@.len() ==> ((#[trigger] l.contents@[i]) matches BulletElement::Lone(bl)
                    && bl.contents@ == bullet_item(b.deep_view()[i]) && bl.tag@ == seq!['l', 'i'])
        },
{
    let ghost bv = b.deep_view();
    let n = b.len();
    if n == 0 {
        return Option::None;
    }
    let mut marker: Option<char> = Option::None;
    let mut i: usize = 0;
    while i < n
        invariant
            0 <= i <= n,
            n == b@.len(),
            bv == b.deep_view(),
            forall|j: int| 0 <= j < i ==> !blank_after_trim(bv[j]),
            i == 0 ==> marker is None,
            i > 0 ==> (marker matches Some(m) && m == left_trimmed(bv[0])[0] && (m == '-' || m
                == '*')),
            forall|j: int|
                0 <= j < i ==> (#[trigger] left_trimmed(bv[j]))[0] == left_trimmed(bv[0])[0],
        decreases n - i,
    {
        let line = b[i].as_str();
        let ghost lv = bv[i as int];
        proof {
            assert(lv == b@[i as int]@);
            assert(line@ == lv);
        }
        let w = ws_run_length(line);
        let len_i = line.unicode_len();
        proof {
            lemma_ws_run(lv);
        }
        if w == len_i {
            proof {
                assert(blank_after_trim(lv));
            }
            return Option::None;
        }
        let c = line.get_char(w);
        proof {
            assert(left_trimmed(lv)[0] == lv[w as int]);
        }
        if c != '-' && c != '*' {
            proof {
                if bullet_matches(bv) {
                    assert(left_trimmed(bv[i as int])[0] == left_trimmed(bv[0])[0]);
                    assert(left_trimmed(bv[i as int])[0] == c);
                    assert(false);
                }
            }
            return Option::None;
        }
        match marker {
            Option::None => {
                marker = Option::Some(c);
            },
            Option::Some(m) => {
                if c != m {
                    proof {
                        if bullet_matches(bv) {
                            assert(left_trimmed(bv[i as int])[0] == left_trimmed(bv[0])[0]);
                            assert(left_trimmed(bv[i as int])[0] == c);
                            assert(false);
                        }
                    }
                    return Option::None;
                }
            },
        }
        i = i + 1;
    }
    proof {
        assert(bullet_matches(bv));
    }
    let mut list = BulletList::new_unordered();
    let mut i: usize = 0;
    while i < n
        invariant
            0 <= i <= n,
            n == b@.len(),
            bv == b.deep_view(),
            bullet_matches(bv),
            list.tag@ == seq!['u', 'l'],
            list.contents@.len() == i,
            forall|j: int|
                0 <= j < i ==> ((#[trigger] list.contents@[j]) matches BulletElement::Lone(bl) && bl.contents@
                    == bullet_item(bv[j]) && bl.tag@ == seq!['l', 'i']),
        decreases n - i,
    {
        let line = b[i].as_str();
        let ghost lv = bv[i as int];
        proof {
            assert(lv == b@[i as int]@);
            assert(line@ == lv);
        }
        let w = ws_run_length(line);
        let len_i = line.unicode_len();
        proof {
            lemma_ws_run(lv);
            assert(!blank_after_trim(lv));
            assert(w < len_i);
        }
        let rest = line.substring_char(w + 1, len_i);
        proof {
            assert(rest@ =~= left_trimmed(lv).skip(1));
        }
        let w2 = ws_run_length(rest);
        let rest_len = rest.unicode_len();
        proof {
            lemma_ws_run(rest@);
        }
        let item = rest.substring_char(w2, rest_len);
        proof {
            assert(item@ =~= bullet_item(lv));
        }
        let ghost prev = list.contents@;
        list.push_string(item.to_owned());
        proof {
            assert forall|j: int|
                0 <= j < i + 1 implies (#[trigger] list.contents@[j]) matches BulletElement::Lone(
                bl,
            ) && bl.contents@ == bullet_item(bv[j]) && bl.tag@ == seq!['l', 'i'] by {
                if j < i {
                    assert(list.contents@[j] == list.contents@.drop_last()[j]);
                }
            }
        }
        i = i + 1;
    }
    Option::Some(list)
}

/// The relation between a list and its HTML node, element by element;
/// an empty list has no contents and serializes self-closing, as the
/// builder leaves it.
pub open spec fn bullet_list_matches(l: BulletList, h: Html) -> bool
    decreases l,
{
    &&& h.name@ == seq!['u', 'l']
    &&& h.attributes@ == Seq::<HtmlAttribute>::empty()
    &&& if l.contents@.len() == 0 {
        h.contents is None
    } else {
        h.contents matches Some(cs) && cs@.len() == l.contents@.len() && forall|i: int|
            0 <= i < l.contents@.len() ==> bullet_elem_matches(l.contents@[i], cs@[i])
    }
}

/// The relation between one list element and the HTML content built for
/// it: a lone item becomes a tag named by the item holding its text, a
/// nested sublist recurses.
pub open spec fn bullet_elem_matches(e: BulletElement, c: HtmlContents) -> bool
    decreases e,
{
    match e {
        BulletElement::Lone(b) => c matches HtmlContents::Tag(h) && h.name@ == b.tag@
            && h.attributes@ == Seq::<HtmlAttribute>::empty() && (h.contents matches Some(cs)
            && cs@ == seq![HtmlContents::Bare(b.contents)]),
        BulletElement::Nested(bl) => c matches HtmlContents::Tag(h) && bullet_list_matches(bl, h),
    }
}

/// Build the HTML node of one list element.
fn bullet_elem_html(e: &BulletElement) -> (h: Html)
    ensures
        bullet_elem_matches(*e, HtmlContents::Tag(h)),
    decreases *e,
{
    match e {
        BulletElement::Lone(b) => Html::new_simple(b.tag.clone(), b.contents.clone()),
        BulletElement::Nested(bl) => bullet_list_html(bl),
    }
}

/// Build the HTML node of a list: a `ul` tag holding one child per
/// element, in order.
fn bullet_list_html(l: &BulletList) -> (h: Html)
    ensures
        bullet_list_matches(*l, h),
    decreases *l,
{
    let name = String::from_str("ul");
    proof {
        reveal_strlit("ul");
        assert(name@ =~= seq!['u', 'l']);
    }
    let mut html = Html::new_empty(name);
    let mut k: usize = 0;
    while k < l.contents.len()
        invariant
            0 <= k <= l.contents@.len(),
            html.name@ == seq!['u', 'l'],
            html.attributes@ == Seq::<HtmlAttribute>::empty(),
            k == 0 ==> html.contents is None,
            k > 0 ==> (html.contents matches Some(cs) && cs@.len() == k && forall|i: int|
                0 <= i < k ==> bullet_elem_matches(l.contents@[i], cs@[i])),
        decreases l.contents@.len() - k,
    {
        proof {
            assert(decreases_to!(*l => l.contents));
            assert(decreases_to!(l.contents => l.contents@));
            assert(decreases_to!(l.contents@ => l.contents@[k as int]));
        }
        let tag = bullet_elem_html(&l.contents[k]);
        let ghost prev = html.contents;
        html.add_tag(tag);
        proof {
            let cs = html.contents->0;
            assert forall|i: int| 0 <= i < k + 1 implies bullet_elem_matches(
                l.contents@[i],
                cs@[i],
            ) by {
                if i < k {
                    assert(cs@[i] == prev->0@[i]);
                }
            }
        }
        k = k + 1;
    }
    html
}

impl ToHtml for BulletList {
    /// The node is a `ul` tag with one child per element, in order.
    open spec fn html_matches(&self, h: Html) -> bool {
        bullet_list_matches(*self, h)
    }

    fn to_html(&self) -> (h: Html) {
        bullet_list_html(self)
    }
}

impl ToHtml for BulletElement {
    /// The node is the tag a lone item or a nested sublist builds.
    open spec fn html_matches(&self, h: Html) -> bool {
        bullet_elem_matches(*self, HtmlContents::Tag(h))
    }

    fn to_html(&self) -> (h: Html) {
        bullet_elem_html(self)
    }
}

impl ToHtml for Bullet {
    /// The node is a tag named by the item's own tag, holding the raw
    /// item text as its single bare content.
    open spec fn html_matches(&self, h: Html) -> bool {
        &&& h.name@ == self.tag@
        &&& h.attributes@ == Seq::<HtmlAttribute>::empty()
        &&& h.contents matches Some(cs) && cs@ == seq![HtmlContents::Bare(self.contents)]
    }

    fn to_html(&self) -> (h: Html) {
        Html::new_simple(self.tag.clone(), self.contents.clone())
    }
}

impl FromBlock for BulletList {
    fn from_block(block: Block) -> Option<BulletList> {
        parse_bulletlist(&block.contents)
    }
}

/// The serialization of a whole list: `<ul>`, the elements in order,
/// `</ul>`; an empty list serializes self-closing.
pub open spec fn render_bullet_list(l: BulletList) -> Seq<char>
    decreases l,
{
    let ul = crate::html::escape_seq(seq!['u', 'l']);
    if l.contents@.len() == 0 {
        seq!['<'] + ul + seq![' ', '/', '>']
    } else {
        seq!['<'] + ul + seq!['>'] + render_bullet_elems(l.contents@) + seq!['<', '/'] + ul
            + seq!['>']
    }
}

/// The serialization of a sequence of list elements, in order.
pub open spec fn render_bullet_elems(es: Seq<BulletElement>) -> Seq<char>
    decreases es,
{
    if es.len() == 0 {
        Seq::empty()
    } else {
        render_bullet_elems(es.drop_last()) + render_bullet_elem(es.last())
    }
}

/// The serialization of one list element.
pub open spec fn render_bullet_elem(e: BulletElement) -> Seq<char>
    decreases e,
{
    match e {
        BulletElement::Lone(b) => crate::html::render_simple(b.tag@, b.contents@),
        BulletElement::Nested(bl) => render_bullet_list(bl),
    }
}

/// The HTML node built for a list serializes to the list's own
/// serialization.
pub proof fn lemma_bullet_list_render(l: BulletList, h: Html)
    requires
        bullet_list_matches(l, h),
    ensures
        crate::html::render_html(h) == render_bullet_list(l),
    decreases l,
{
    if l.contents@.len() == 0 {
        assert(crate::html::render_attrs(h.attributes@) =~= Seq::<char>::empty());
        assert(crate::html::render_html(h) =~= render_bullet_list(l));
    } else {
        let cs = h.contents->0;
        assert(decreases_to!(l => l.contents));
        assert(decreases_to!(l.contents => l.contents@));
        lemma_bullet_elems_render(l.contents@, cs@);
        assert(crate::html::render_attrs(h.attributes@) =~= Seq::<char>::empty());
        assert(crate::html::render_html(h) =~= render_bullet_list(l));
    }
}

/// Pairwise matching elements serialize to the same text, in order.
pub proof fn lemma_bullet_elems_render(es: Seq<BulletElement>, cs: Seq<HtmlContents>)
    requires
        es.len() == cs.len(),
        forall|i: int| 0 <= i < es.len() ==> bullet_elem_matches(#[trigger] es[i], cs[i]),
    ensures
        crate::html::render_nodes(cs) == render_bullet_elems(es),
    decreases es,
{
    if es.len() > 0 {
        assert forall|i: int|
            0 <= i < es.drop_last().len() implies bullet_elem_matches(
            #[trigger] es.drop_last()[i],
            cs.drop_last()[i],
        ) by {
            assert(es.drop_last()[i] == es[i]);
            assert(cs.drop_last()[i] == cs[i]);
        }
        lemma_bullet_elems_render(es.drop_last(), cs.drop_last());
        assert(bullet_elem_matches(es[es.len() - 1], cs[cs.len() - 1]));
        lemma_bullet_elem_render(es.last(), cs.last());
    }
}

/// A matching element and content serialize to the same text.
pub proof fn lemma_bullet_elem_render(e: BulletElement, c: HtmlContents)
    requires
        bullet_elem_matches(e, c),
    ensures
        crate::html::render_node(c) == render_bullet_elem(e),
    decreases e,
{
    match e {
        BulletElement::Lone(b) => {
            let h = c->Tag_0;
            crate::html::lemma_simple_render(h, b.tag@, b.contents@);
        },
        BulletElement::Nested(bl) => {
            let h = c->Tag_0;
            lemma_bullet_list_render(bl, h);
        },
    }
}

} // verus!
