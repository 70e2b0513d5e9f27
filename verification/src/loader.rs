//! The trusted boundary to the syntax-tree library.
//!
//! Source text is parsed by the `syn` crate; the parsed file is opaque to
//! verification, so this module gives its contents a name,
//! [`parsed_items`], and reads them out through small trusted accessors.
//! The verified [`load_source`] assembles the crate's own [`ParsedSource`]
//! model from those accessors, and everything downstream works on that
//! model alone.

use vstd::prelude::*;

use syn::spanned::Spanned;

use crate::model::ImplEntry;
use crate::model::ItemKind;
use crate::model::ItemModel;
use crate::model::ParsedSource;
use crate::model::SourceItem;

verus! {

#[verifier::external_type_specification]
#[verifier::external_body]
pub struct ExSynFile(syn::File);

/// What `syn::parse_file` yields for this source text: `None` when the
/// text is not parseable, else the model of the file's top-level items.
pub uninterp spec fn parse_result(s: Seq<char>) -> Option<Seq<ItemModel>>;

/// The model of the top-level items a parsed file holds: for each item its
/// shape, name, implemented trait, impl entries and source text.
pub uninterp spec fn parsed_items(f: syn::File) -> Seq<ItemModel>;

/// Relies on `syn::parse_file`: it parses a whole source file, and its
/// result is a function of the text alone.
#[verifier::external_body]
fn parse_rust_source(content: &str) -> (r: Option<syn::File>)
    ensures
        (r is Some) == (parse_result(content@) is Some),
        r matches Some(f) ==> Some(parsed_items(f)) == parse_result(content@),
{
    syn::parse_file(content).ok()
}

/// Relies on `Vec::len` of `syn::File::items`: the number of top-level
/// items.
#[verifier::external_body]
fn file_item_count(f: &syn::File) -> (n: usize)
    ensures
        n == parsed_items(*f).len(),
{
    f.items.len()
}

/// Relies on the `syn::Item` variants: which shape the item at `i` has.
#[verifier::external_body]
fn item_kind_of(f: &syn::File, i: usize) -> (r: ItemKind)
    requires
        i < parsed_items(*f).len(),
    ensures
        r == parsed_items(*f)[i as int].kind,
{
    match &f.items[i] {
        syn::Item::Fn(_) => ItemKind::Function,
        syn::Item::Struct(_) => ItemKind::Struct,
        syn::Item::Enum(_) => ItemKind::Enum,
        syn::Item::Trait(_) => ItemKind::Trait,
        syn::Item::Impl(_) => ItemKind::Impl,
        _ => ItemKind::Other,
    }
}

/// Relies on the `ident` of `syn::ItemFn`, `ItemStruct`, `ItemEnum` and
/// `ItemTrait`: the declared name of the item at `i` (empty for other
/// shapes).
#[verifier::external_body]
fn item_name_of(f: &syn::File, i: usize) -> (r: String)
    requires
        i < parsed_items(*f).len(),
        parsed_items(*f)[i as int].kind != ItemKind::Impl,
    ensures
        r@ == parsed_items(*f)[i as int].name,
{
    match &f.items[i] {
        syn::Item::Fn(x) => x.sig.ident.to_string(),
        syn::Item::Struct(x) => x.ident.to_string(),
        syn::Item::Enum(x) => x.ident.to_string(),
        syn::Item::Trait(x) => x.ident.to_string(),
        _ => String::new(),
    }
}

/// Relies on `syn::ItemImpl::self_ty`: the terminal path segment of the
/// Self type of the impl block at `i` (empty when the Self type is no
/// path).
#[verifier::external_body]
fn impl_self_name_of(f: &syn::File, i: usize) -> (r: String)
    requires
        i < parsed_items(*f).len(),
        parsed_items(*f)[i as int].kind == ItemKind::Impl,
    ensures
        r@ == parsed_items(*f)[i as int].name,
{
    match &f.items[i] {
        syn::Item::Impl(x) => match &*x.self_ty {
            syn::Type::Path(tp) => match tp.path.segments.last() {
                Some(seg) => seg.ident.to_string(),
                None => String::new(),
            },
            _ => String::new(),
        },
        _ => String::new(),
    }
}

/// Relies on `syn::ItemImpl::trait_`: the terminal path segment of the
/// implemented trait of the impl block at `i`, or `None` for an inherent
/// impl (and for any item that is no impl block).
#[verifier::external_body]
fn impl_trait_name_of(f: &syn::File, i: usize) -> (r: Option<String>)
    requires
        i < parsed_items(*f).len(),
    ensures
        (r is Some) == (parsed_items(*f)[i as int].trait_name is Some),
        r matches Some(t) ==> parsed_items(*f)[i as int].trait_name == Some(t@),
{
    match &f.items[i] {
        syn::Item::Impl(x) => match &x.trait_ {
            Some((_, p, _)) => match p.segments.last() {
                Some(seg) => Some(seg.ident.to_string()),
                None => None,
            },
            None => None,
        },
        _ => None,
    }
}

/// Relies on `proc_macro2::Span::source_text` (through
/// `syn::spanned::Spanned`): the source text of the item at `i`, exactly
/// as it stands in the parsed text (empty when the span carries no text).
#[verifier::external_body]
fn item_text_of(f: &syn::File, i: usize) -> (r: String)
    requires
        i < parsed_items(*f).len(),
    ensures
        r@ == parsed_items(*f)[i as int].text,
{
    match f.items[i].span().source_text() {
        Some(t) => t,
        None => String::new(),
    }
}

/// Relies on `Vec::len` of `syn::ItemImpl::items`: how many entries the
/// impl block at `i` holds (zero for any item that is no impl block).
#[verifier::external_body]
fn impl_entry_count_of(f: &syn::File, i: usize) -> (n: usize)
    requires
        i < parsed_items(*f).len(),
    ensures
        n == parsed_items(*f)[i as int].entries.len(),
{
    match &f.items[i] {
        syn::Item::Impl(x) => x.items.len(),
        _ => 0,
    }
}

/// Relies on the `syn::ImplItem` variants: is entry `j` of the impl block
/// at `i` an associated function?
#[verifier::external_body]
fn impl_entry_is_fn(f: &syn::File, i: usize, j: usize) -> (r: bool)
    requires
        i < parsed_items(*f).len(),
        j < parsed_items(*f)[i as int].entries.len(),
    ensures
        r == parsed_items(*f)[i as int].entries[j as int].is_fn,
{
    match &f.items[i] {
        syn::Item::Impl(x) => matches!(x.items[j], syn::ImplItem::Fn(_)),
        _ => false,
    }
}

/// Relies on `syn::ImplItemFn::sig`: the name of the method at entry `j`
/// of the impl block at `i` (empty for entries that are no methods).
#[verifier::external_body]
fn impl_entry_name_of(f: &syn::File, i: usize, j: usize) -> (r: String)
    requires
        i < parsed_items(*f).len(),
        j < parsed_items(*f)[i as int].entries.len(),
    ensures
        r@ == parsed_items(*f)[i as int].entries[j as int].name,
{
    match &f.items[i] {
        syn::Item::Impl(x) => match &x.items[j] {
            syn::ImplItem::Fn(m) => m.sig.ident.to_string(),
            _ => String::new(),
        },
        _ => String::new(),
    }
}

/// Relies on `proc_macro2::Span::source_text` (through
/// `syn::spanned::Spanned`): the source text of the method at entry `j` of
/// the impl block at `i` (empty for entries that are no methods, or when
/// the span carries no text).
#[verifier::external_body]
fn impl_entry_text_of(f: &syn::File, i: usize, j: usize) -> (r: String)
    requires
        i < parsed_items(*f).len(),
        j < parsed_items(*f)[i as int].entries.len(),
    ensures
        r@ == parsed_items(*f)[i as int].entries[j as int].text,
{
    match &f.items[i] {
        syn::Item::Impl(x) => match &x.items[j] {
            syn::ImplItem::Fn(m) => match m.span().source_text() {
                Some(t) => t,
                None => String::new(),
            },
            _ => String::new(),
        },
        _ => String::new(),
    }
}

/// Reads the impl entries of the item at `i` into the crate's model.
fn load_entries(f: &syn::File, i: usize) -> (r: Vec<ImplEntry>)
    requires
        i < parsed_items(*f).len(),
    ensures
        r@.map_values(|e: ImplEntry| e@) == parsed_items(*f)[i as int].entries,
{
    let ghost entries = parsed_items(*f)[i as int].entries;
    let m = impl_entry_count_of(f, i);
    let mut out: Vec<ImplEntry> = Vec::new();
    proof {
        assert(out@.map_values(|e: ImplEntry| e@) =~= entries.take(0));
    }
    let mut j: usize = 0;
    while j < m
        invariant
            i < parsed_items(*f).len(),
            entries == parsed_items(*f)[i as int].entries,
            m == entries.len(),
            j <= m,
            out@.map_values(|e: ImplEntry| e@) =~= entries.take(j as int),
        decreases m - j,
    {
        let e = ImplEntry {
            is_fn: impl_entry_is_fn(f, i, j),
            name: impl_entry_name_of(f, i, j),
            text: impl_entry_text_of(f, i, j),
        };
        proof {
            assert(e@ =~= entries[j as int]);
            assert(out@.push(e).map_values(|e: ImplEntry| e@) =~= out@.map_values(
                |e: ImplEntry| e@,
            ).push(e@));
            assert(entries.take(j + 1) =~= entries.take(j as int).push(entries[j as int]));
        }
        out.push(e);
        j += 1;
    }
    proof {
        assert(entries.take(m as int) =~= entries);
    }
    out
}

/// Reads a parsed file into the crate's model of its top-level items.
pub fn load_source(f: &syn::File) -> (r: ParsedSource)
    ensures
        r@ == parsed_items(*f),
{
    let ghost model = parsed_items(*f);
    let n = file_item_count(f);
    let mut items: Vec<SourceItem> = Vec::new();
    proof {
        assert(items@.map_values(|it: SourceItem| it@) =~= model.take(0));
    }
    let mut i: usize = 0;
    while i < n
        invariant
            model == parsed_items(*f),
            n == model.len(),
            i <= n,
            items@.map_values(|it: SourceItem| it@) =~= model.take(i as int),
        decreases n - i,
    {
        let kind = item_kind_of(f, i);
        let name = if kind == ItemKind::Impl {
            impl_self_name_of(f, i)
        } else {
            item_name_of(f, i)
        };
        let it = SourceItem {
            kind,
            name,
            trait_name: impl_trait_name_of(f, i),
            entries: load_entries(f, i),
            text: item_text_of(f, i),
        };
        proof {
            assert(it@ =~= model[i as int]);
            assert(items@.push(it).map_values(|x: SourceItem| x@) =~= items@.map_values(
                |x: SourceItem| x@,
            ).push(it@));
            assert(model.take(i + 1) =~= model.take(i as int).push(model[i as int]));
        }
        items.push(it);
        i += 1;
    }
    proof {
        assert(model.take(n as int) =~= model);
    }
    let r = ParsedSource { items };
    proof {
        assert(r@ =~= parsed_items(*f));
    }
    r
}

/// Parses source text: `None` when the text is not parseable, else the
/// model of its top-level items, as [`parse_result`] names it.
pub fn parse_source(content: &str) -> (r: Option<ParsedSource>)
    ensures
        (r is Some) == (parse_result(content@) is Some),
        r matches Some(ps) ==> Some(ps@) == parse_result(content@),
{
    match parse_rust_source(content) {
        Some(f) => Some(load_source(&f)),
        None => None,
    }
}

} // verus!
