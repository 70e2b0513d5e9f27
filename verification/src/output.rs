//! Composition of the final substitution text out of hidden and visible
//! blocks.
//!
//! The composer never reorders: hidden blocks come first, in the order they
//! were added, then the visible blocks in their order, so a directive's
//! declared dependency order is preserved exactly.

use vstd::prelude::*;
use vstd::string::StringExecFns;

use crate::formatter::format_hidden;
use crate::formatter::format_hidden_spec;
use crate::formatter::format_visible;
use crate::formatter::format_visible_spec;
use crate::text::views_of;

verus! {

/// The concatenation of the given blocks, each rendered hidden.
pub open spec fn cat_hidden_blocks(blocks: Seq<Seq<char>>) -> Seq<char>
    decreases blocks.len(),
{
    if blocks.len() == 0 {
        Seq::empty()
    } else {
        cat_hidden_blocks(blocks.drop_last()) + format_hidden_spec(blocks.last())
    }
}

/// The concatenation of the given blocks, each rendered visible.
pub open spec fn cat_visible_blocks(blocks: Seq<Seq<char>>) -> Seq<char>
    decreases blocks.len(),
{
    if blocks.len() == 0 {
        Seq::empty()
    } else {
        cat_visible_blocks(blocks.drop_last()) + format_visible_spec(blocks.last())
    }
}

/// The mathematical view of an [`Output`]: the hidden and visible blocks,
/// in the order they were added.
pub struct OutputModel {
    pub hidden: Seq<Seq<char>>,
    pub visible: Seq<Seq<char>>,
}

/// All hidden blocks first, then all visible blocks, each rendered by its
/// formatter, with nothing injected between them.
pub open spec fn compose_spec(m: OutputModel) -> Seq<char> {
    cat_hidden_blocks(m.hidden) + cat_visible_blocks(m.visible)
}

/// A processed directive's content: hidden blocks (supporting code the
/// documentation reader may fold away) and visible blocks.
pub struct Output {
    hidden_content: Vec<String>,
    visible_content: Vec<String>,
}

impl View for Output {
    type V = OutputModel;

    closed spec fn view(&self) -> OutputModel {
        OutputModel {
            hidden: views_of(self.hidden_content@),
            visible: views_of(self.visible_content@),
        }
    }
}

impl Output {
    /// An output with no blocks yet.
    pub fn new() -> (r: Self)
        ensures
            r@.hidden == Seq::<Seq<char>>::empty(),
            r@.visible == Seq::<Seq<char>>::empty(),
    {
        let r = Self { hidden_content: Vec::new(), visible_content: Vec::new() };
        proof {
            assert(r@.hidden =~= Seq::<Seq<char>>::empty());
            assert(r@.visible =~= Seq::<Seq<char>>::empty());
        }
        r
    }

    /// Appends one hidden block.
    pub fn add_hidden_content(&mut self, content: String)
        ensures
            final(self)@.hidden == old(self)@.hidden.push(content@),
            final(self)@.visible == old(self)@.visible,
    {
        proof {
            assert(views_of(self.hidden_content@.push(content)) =~= views_of(
                self.hidden_content@,
            ).push(content@));
        }
        self.hidden_content.push(content);
    }

    /// Appends one visible block.
    pub fn add_visible_content(&mut self, content: String)
        ensures
            final(self)@.visible == old(self)@.visible.push(content@),
            final(self)@.hidden == old(self)@.hidden,
    {
        proof {
            assert(views_of(self.visible_content@.push(content)) =~= views_of(
                self.visible_content@,
            ).push(content@));
        }
        self.visible_content.push(content);
    }

    /// Renders the composed substitution text: every hidden block with the
    /// fold prefix on each line, then every visible block unchanged, in the
    /// order the blocks were added.
    pub fn format(&self) -> (r: String)
        ensures
            r@ == compose_spec(self@),
    {
        let mut result = String::new();
        let mut i: usize = 0;
        while i < self.hidden_content.len()
            invariant
                i <= self.hidden_content@.len(),
                result@ =~= cat_hidden_blocks(views_of(self.hidden_content@).take(i as int)),
            decreases self.hidden_content@.len() - i,
        {
            let block = format_hidden(self.hidden_content[i].as_str());
            result.append(block.as_str());
            proof {
                let vs = views_of(self.hidden_content@);
                assert(vs.take(i + 1).drop_last() =~= vs.take(i as int));
                assert(vs.take(i + 1).last() == self.hidden_content@[i as int]@);
            }
            i += 1;
        }
        proof {
            let vs = views_of(self.hidden_content@);
            assert(vs.take(vs.len() as int) =~= vs);
        }
        let mut i: usize = 0;
        while i < self.visible_content.len()
            invariant
                result@ =~= cat_hidden_blocks(views_of(self.hidden_content@))
                    + cat_visible_blocks(views_of(self.visible_content@).take(i as int)),
                i <= self.visible_content@.len(),
            decreases self.visible_content@.len() - i,
        {
            let block = format_visible(self.visible_content[i].as_str());
            result.append(block.as_str());
            proof {
                let vs = views_of(self.visible_content@);
                assert(vs.take(i + 1).drop_last() =~= vs.take(i as int));
                assert(vs.take(i + 1).last() == self.visible_content@[i as int]@);
            }
            i += 1;
        }
        proof {
            let vs = views_of(self.visible_content@);
            assert(vs.take(vs.len() as int) =~= vs);
        }
        result
    }
}

} // verus!
