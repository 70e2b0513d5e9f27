//! The in-memory model of a parsed source file.
//!
//! A file is a sequence of top-level items.  Of each item the pipeline reads
//! only a handful of facts: its shape (function, struct, enum, trait, impl
//! block, or something else), its name, for impl blocks the implemented
//! trait and the contained entries, and the item's source text.  Those facts
//! are held here as plain values; the syntax-tree library that produces them
//! stays behind the loader's trusted boundary.

use vstd::prelude::*;

verus! {

/// The shape of a top-level item.
#[derive(Clone, Copy, PartialEq, Eq, Structural, Debug)]
pub enum ItemKind {
    /// A free function.
    Function,
    /// A struct definition.
    Struct,
    /// An enum definition.
    Enum,
    /// A trait definition.
    Trait,
    /// An inherent or trait implementation block.
    Impl,
    /// Any other top-level item (imports, constants, modules, ...).
    Other,
}

/// One entry of an impl block: a method, or some other associated item.
pub struct ImplEntry {
    /// Is this entry an associated function (a method)?
    pub is_fn: bool,
    /// The method name; empty for other entries.
    pub name: String,
    /// The entry's source text; empty for entries that are not methods.
    pub text: String,
}

/// The mathematical view of an [`ImplEntry`].
#[verifier::ext_equal]
pub struct ImplEntryModel {
    pub is_fn: bool,
    pub name: Seq<char>,
    pub text: Seq<char>,
}

impl View for ImplEntry {
    type V = ImplEntryModel;

    open spec fn view(&self) -> ImplEntryModel {
        ImplEntryModel { is_fn: self.is_fn, name: self.name@, text: self.text@ }
    }
}

/// One top-level item of a source file.
pub struct SourceItem {
    /// The item's shape.
    pub kind: ItemKind,
    /// The declared name: the identifier of a function, struct, enum or
    /// trait; for an impl block the terminal path segment of the Self type;
    /// empty for other items.
    pub name: String,
    /// For an impl block that implements a trait, the terminal path segment
    /// of the trait; `None` for inherent impls and all other items.
    pub trait_name: Option<String>,
    /// The entries of an impl block; empty for all other items.
    pub entries: Vec<ImplEntry>,
    /// The item's source text, exactly as it stands in the file.
    pub text: String,
}

/// The mathematical view of a [`SourceItem`].
#[verifier::ext_equal]
pub struct ItemModel {
    pub kind: ItemKind,
    pub name: Seq<char>,
    pub trait_name: Option<Seq<char>>,
    pub entries: Seq<ImplEntryModel>,
    pub text: Seq<char>,
}

impl View for SourceItem {
    type V = ItemModel;

    open spec fn view(&self) -> ItemModel {
        ItemModel {
            kind: self.kind,
            name: self.name@,
            trait_name: match self.trait_name {
                Some(t) => Some(t@),
                None => None,
            },
            entries: self.entries@.map_values(|e: ImplEntry| e@),
            text: self.text@,
        }
    }
}

/// A parsed source file: its top-level items in declaration order.
pub struct ParsedSource {
    pub items: Vec<SourceItem>,
}

impl View for ParsedSource {
    type V = Seq<ItemModel>;

    open spec fn view(&self) -> Seq<ItemModel> {
        self.items@.map_values(|it: SourceItem| it@)
    }
}

impl ParsedSource {
    /// How many top-level items the file holds.
    pub fn len(&self) -> (n: usize)
        ensures
            n == self@.len(),
    {
        self.items.len()
    }

    /// The item at position `i`.
    pub fn item(&self, i: usize) -> (r: &SourceItem)
        requires
            i < self@.len(),
        ensures
            r@ == self@[i as int],
    {
        &self.items[i]
    }
}

} // verus!
