//! A block: one maximal run of consecutive non-separator lines.

use vstd::prelude::*;

verus! {

/// A maximal run of consecutive non-separator lines from the source, in
/// source order and with trailing line terminators stripped. A block may
/// hold no lines at all, when two separators are adjacent or the document
/// begins or ends with one.
#[derive(Debug)]
pub struct Block {
    pub contents: Vec<String>,
}

impl View for Block {
    type V = Seq<Seq<char>>;

    open spec fn view(&self) -> Seq<Seq<char>> {
        self.contents.deep_view()
    }
}

impl DeepView for Block {
    type V = Seq<Seq<char>>;

    open spec fn deep_view(&self) -> Seq<Seq<char>> {
        self.view()
    }
}

impl Block {
    /// Wrap an already-split sequence of lines as a block.
    pub fn new(s: Vec<String>) -> (b: Block)
        ensures
            b@ == s.deep_view(),
    {
        Block { contents: s }
    }

    /// A block holding a single line.
    pub fn new_oneline(s: String) -> (b: Block)
        ensures
            b@.len() == 1,
            b@[0] == s@,
    {
        let mut contents: Vec<String> = Vec::new();
        contents.push(s);
        Block { contents }
    }

    /// Number of lines in the block.
    pub fn len(&self) -> (n: usize)
        ensures
            n == self@.len(),
    {
        self.contents.len()
    }

    /// The lines of the block, for iteration in source order.
    pub fn iter(&self) -> (r: &Vec<String>)
        ensures
            r.deep_view() == self@,
    {
        &self.contents
    }
}

/// A structural element that can be recognized in a block, or fail to be.
pub trait FromBlock: Sized {
    fn from_block(block: Block) -> Option<Self>;
}

} // verus!
