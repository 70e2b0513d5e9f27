//! Locating a named element inside a parsed source file.
//!
//! All scans are linear over the top-level items in declaration order, and
//! the first match wins, so an (invalidly) duplicated name resolves
//! deterministically.  Impl blocks are matched on the terminal path segment
//! of their Self type, so a qualified and an unqualified spelling of the
//! same type are equivalent.
//!
//! A free name resolves to the first top-level function of that name and,
//! when there is none, to the first method of that name in any impl block.
//! This is deliberately best-effort: duck-typed resolution across unrelated
//! types sharing a method name is an accepted ambiguity of the directive
//! language, not a defect.

use vstd::prelude::*;
use vstd::string::StrSliceExecFns;

use crate::model::ImplEntryModel;
use crate::model::ItemKind;
use crate::model::ItemModel;
use crate::model::ParsedSource;
use crate::text::find_sub_from;
use crate::text::last_match_before;
use crate::text::next_match;
use crate::text::rfind_sub;
use crate::text::str_eq;
use crate::text::substring_copy;
use crate::text::trim_spec;
use crate::text::trim_ws;

verus! {

/// What a scan over the top-level items looks for.
pub enum Matcher {
    /// A top-level function of this name.
    Function(Seq<char>),
    /// A struct of this name.
    Struct(Seq<char>),
    /// An enum of this name.
    Enum(Seq<char>),
    /// A trait of this name.
    Trait(Seq<char>),
    /// The inherent impl block of this type.
    StructImpl(Seq<char>),
    /// The impl block of this trait (first field) for this type (second).
    TraitImpl(Seq<char>, Seq<char>),
    /// Any impl block holding a method of this name.
    ImplWithMethod(Seq<char>),
}

/// Is this impl entry a method of the given name?
pub open spec fn entry_named(e: ImplEntryModel, name: Seq<char>) -> bool {
    e.is_fn && e.name == name
}

/// The first entry index at or after `from` that is a method named `name`.
pub open spec fn first_entry(entries: Seq<ImplEntryModel>, name: Seq<char>, from: int) -> Option<
    int,
>
    decreases entries.len() - from,
{
    if from < 0 || from >= entries.len() {
        None
    } else if entry_named(entries[from], name) {
        Some(from)
    } else {
        first_entry(entries, name, from + 1)
    }
}

/// Does the item satisfy the matcher?
pub open spec fn item_matches(it: ItemModel, m: Matcher) -> bool {
    match m {
        Matcher::Function(name) => it.kind == ItemKind::Function && it.name == name,
        Matcher::Struct(name) => it.kind == ItemKind::Struct && it.name == name,
        Matcher::Enum(name) => it.kind == ItemKind::Enum && it.name == name,
        Matcher::Trait(name) => it.kind == ItemKind::Trait && it.name == name,
        Matcher::StructImpl(ty) => it.kind == ItemKind::Impl && it.trait_name is None && it.name
            == ty,
        Matcher::TraitImpl(tr, ty) => it.kind == ItemKind::Impl && it.trait_name == Some(tr)
            && it.name == ty,
        Matcher::ImplWithMethod(name) => it.kind == ItemKind::Impl && first_entry(
            it.entries,
            name,
            0,
        ) is Some,
    }
}

/// The first index at or after `from` whose item satisfies the matcher.
pub open spec fn first_match_from(src: Seq<ItemModel>, m: Matcher, from: int) -> Option<int>
    decreases src.len() - from,
{
    if from < 0 || from >= src.len() {
        None
    } else if item_matches(src[from], m) {
        Some(from)
    } else {
        first_match_from(src, m, from + 1)
    }
}

/// The first item satisfying the matcher.
pub open spec fn find_item_spec(src: Seq<ItemModel>, m: Matcher) -> Option<int> {
    first_match_from(src, m, 0)
}

/// A found first match lies in bounds and satisfies the matcher.
pub proof fn lemma_first_match_props(src: Seq<ItemModel>, m: Matcher, from: int)
    requires
        0 <= from,
    ensures
        first_match_from(src, m, from) matches Some(i) ==> from <= i < src.len() && item_matches(
            src[i],
            m,
        ),
    decreases src.len() - from,
{
    if from < src.len() && !item_matches(src[from], m) {
        lemma_first_match_props(src, m, from + 1);
    }
}

/// A found index with no earlier match is the first match.
pub proof fn lemma_first_match_some(src: Seq<ItemModel>, m: Matcher, from: int, k: int)
    requires
        0 <= from <= k < src.len(),
        item_matches(src[k], m),
        forall|j: int| from <= j < k ==> !item_matches(#[trigger] src[j], m),
    ensures
        first_match_from(src, m, from) == Some(k),
    decreases src.len() - from,
{
    if from < k {
        lemma_first_match_some(src, m, from + 1, k);
    }
}

/// With no match anywhere there is no first match.
pub proof fn lemma_first_match_none(src: Seq<ItemModel>, m: Matcher, from: int)
    requires
        0 <= from <= src.len(),
        forall|j: int| from <= j < src.len() ==> !item_matches(#[trigger] src[j], m),
    ensures
        first_match_from(src, m, from) is None,
    decreases src.len() - from,
{
    if from < src.len() {
        lemma_first_match_none(src, m, from + 1);
    }
}

/// A found first entry lies in bounds and is a method of the given name.
pub proof fn lemma_first_entry_props(entries: Seq<ImplEntryModel>, name: Seq<char>, from: int)
    requires
        0 <= from,
    ensures
        first_entry(entries, name, from) matches Some(j) ==> from <= j < entries.len()
            && entry_named(entries[j], name),
    decreases entries.len() - from,
{
    if from < entries.len() && !entry_named(entries[from], name) {
        lemma_first_entry_props(entries, name, from + 1);
    }
}

proof fn lemma_first_entry_some(entries: Seq<ImplEntryModel>, name: Seq<char>, from: int, k: int)
    requires
        0 <= from <= k < entries.len(),
        entry_named(entries[k], name),
        forall|j: int| from <= j < k ==> !entry_named(#[trigger] entries[j], name),
    ensures
        first_entry(entries, name, from) == Some(k),
    decreases entries.len() - from,
{
    if from < k {
        lemma_first_entry_some(entries, name, from + 1, k);
    }
}

proof fn lemma_first_entry_none(entries: Seq<ImplEntryModel>, name: Seq<char>, from: int)
    requires
        0 <= from <= entries.len(),
        forall|j: int| from <= j < entries.len() ==> !entry_named(#[trigger] entries[j], name),
    ensures
        first_entry(entries, name, from) is None,
    decreases entries.len() - from,
{
    if from < entries.len() {
        lemma_first_entry_none(entries, name, from + 1);
    }
}

/// Finds the first method named `name` among the entries of item `i`.
fn find_entry(parsed_file: &ParsedSource, i: usize, name: &str) -> (r: Option<usize>)
    requires
        i < parsed_file@.len(),
    ensures
        match r {
            Some(j) => first_entry(parsed_file@[i as int].entries, name@, 0) == Some(j as int) && j
                < parsed_file@[i as int].entries.len(),
            None => first_entry(parsed_file@[i as int].entries, name@, 0) is None,
        },
{
    let it = parsed_file.item(i);
    let ghost entries = parsed_file@[i as int].entries;
    let m = it.entries.len();
    let mut j: usize = 0;
    while j < m
        invariant
            i < parsed_file@.len(),
            entries == parsed_file@[i as int].entries,
            entries == it@.entries,
            m == entries.len(),
            j <= m,
            forall|k: int| 0 <= k < j ==> !entry_named(#[trigger] entries[k], name@),
        decreases m - j,
    {
        let e = &it.entries[j];
        proof {
            assert(entries[j as int] == it.entries@[j as int]@);
        }
        let hit = e.is_fn && str_eq(e.name.as_str(), name);
        proof {
            assert(hit == entry_named(entries[j as int], name@));
        }
        if hit {
            proof {
                lemma_first_entry_some(entries, name@, 0, j as int);
                assert(entries == parsed_file@[i as int].entries);
            }
            return Some(j);
        }
        j += 1;
    }
    proof {
        lemma_first_entry_none(entries, name@, 0);
    }
    None
}

/// Does the exec matcher test hold of item `i`?  Shared scan step of
/// [`find_item`].
fn item_matches_exec(parsed_file: &ParsedSource, i: usize, m: &MatcherExec) -> (r: bool)
    requires
        i < parsed_file@.len(),
    ensures
        r == item_matches(parsed_file@[i as int], m@),
{
    let it = parsed_file.item(i);
    match m {
        MatcherExec::Function(name) => it.kind == ItemKind::Function && str_eq(
            it.name.as_str(),
            name.as_str(),
        ),
        MatcherExec::Struct(name) => it.kind == ItemKind::Struct && str_eq(
            it.name.as_str(),
            name.as_str(),
        ),
        MatcherExec::Enum(name) => it.kind == ItemKind::Enum && str_eq(
            it.name.as_str(),
            name.as_str(),
        ),
        MatcherExec::Trait(name) => it.kind == ItemKind::Trait && str_eq(
            it.name.as_str(),
            name.as_str(),
        ),
        MatcherExec::StructImpl(ty) => it.kind == ItemKind::Impl && it.trait_name.is_none()
            && str_eq(it.name.as_str(), ty.as_str()),
        MatcherExec::TraitImpl(tr, ty) => it.kind == ItemKind::Impl && (match &it.trait_name {
            Some(t) => str_eq(t.as_str(), tr.as_str()),
            None => false,
        }) && str_eq(it.name.as_str(), ty.as_str()),
        MatcherExec::ImplWithMethod(name) => it.kind == ItemKind::Impl && find_entry(
            parsed_file,
            i,
            name.as_str(),
        ).is_some(),
    }
}

/// The executable counterpart of [`Matcher`].
pub enum MatcherExec {
    Function(String),
    Struct(String),
    Enum(String),
    Trait(String),
    StructImpl(String),
    TraitImpl(String, String),
    ImplWithMethod(String),
}

impl View for MatcherExec {
    type V = Matcher;

    open spec fn view(&self) -> Matcher {
        match self {
            MatcherExec::Function(name) => Matcher::Function(name@),
            MatcherExec::Struct(name) => Matcher::Struct(name@),
            MatcherExec::Enum(name) => Matcher::Enum(name@),
            MatcherExec::Trait(name) => Matcher::Trait(name@),
            MatcherExec::StructImpl(ty) => Matcher::StructImpl(ty@),
            MatcherExec::TraitImpl(tr, ty) => Matcher::TraitImpl(tr@, ty@),
            MatcherExec::ImplWithMethod(name) => Matcher::ImplWithMethod(name@),
        }
    }
}

/// Finds the first top-level item the matcher accepts, scanning in
/// declaration order.
pub fn find_item(parsed_file: &ParsedSource, m: &MatcherExec) -> (r: Option<usize>)
    ensures
        match r {
            Some(i) => find_item_spec(parsed_file@, m@) == Some(i as int) && i
                < parsed_file@.len(),
            None => find_item_spec(parsed_file@, m@) is None,
        },
{
    let n = parsed_file.len();
    let mut i: usize = 0;
    while i < n
        invariant
            n == parsed_file@.len(),
            i <= n,
            forall|j: int| 0 <= j < i ==> !item_matches(#[trigger] parsed_file@[j], m@),
        decreases n - i,
    {
        if item_matches_exec(parsed_file, i, m) {
            proof {
                lemma_first_match_some(parsed_file@, m@, 0, i as int);
            }
            return Some(i);
        }
        i += 1;
    }
    proof {
        lemma_first_match_none(parsed_file@, m@, 0);
    }
    None
}

/// Finds the first top-level function named `function_name`.
pub fn find_function(parsed_file: &ParsedSource, function_name: &str) -> (r: Option<usize>)
    ensures
        match r {
            Some(i) => find_item_spec(parsed_file@, Matcher::Function(function_name@)) == Some(
                i as int,
            ) && i < parsed_file@.len(),
            None => find_item_spec(parsed_file@, Matcher::Function(function_name@)) is None,
        },
{
    find_item(parsed_file, &MatcherExec::Function(function_name.to_owned()))
}

/// Finds the first struct named `struct_name`.
pub fn find_struct(parsed_file: &ParsedSource, struct_name: &str) -> (r: Option<usize>)
    ensures
        match r {
            Some(i) => find_item_spec(parsed_file@, Matcher::Struct(struct_name@)) == Some(
                i as int,
            ) && i < parsed_file@.len(),
            None => find_item_spec(parsed_file@, Matcher::Struct(struct_name@)) is None,
        },
{
    find_item(parsed_file, &MatcherExec::Struct(struct_name.to_owned()))
}

/// Finds the first enum named `enum_name`.
pub fn find_enum(parsed_file: &ParsedSource, enum_name: &str) -> (r: Option<usize>)
    ensures
        match r {
            Some(i) => find_item_spec(parsed_file@, Matcher::Enum(enum_name@)) == Some(i as int)
                && i < parsed_file@.len(),
            None => find_item_spec(parsed_file@, Matcher::Enum(enum_name@)) is None,
        },
{
    find_item(parsed_file, &MatcherExec::Enum(enum_name.to_owned()))
}

/// Finds the first trait named `trait_name`.
pub fn find_trait(parsed_file: &ParsedSource, trait_name: &str) -> (r: Option<usize>)
    ensures
        match r {
            Some(i) => find_item_spec(parsed_file@, Matcher::Trait(trait_name@)) == Some(i as int)
                && i < parsed_file@.len(),
            None => find_item_spec(parsed_file@, Matcher::Trait(trait_name@)) is None,
        },
{
    find_item(parsed_file, &MatcherExec::Trait(trait_name.to_owned()))
}

/// Finds the first inherent impl block (no trait) whose Self type is
/// `struct_name`.
pub fn find_struct_impl(parsed_file: &ParsedSource, struct_name: &str) -> (r: Option<usize>)
    ensures
        match r {
            Some(i) => find_item_spec(parsed_file@, Matcher::StructImpl(struct_name@)) == Some(
                i as int,
            ) && i < parsed_file@.len(),
            None => find_item_spec(parsed_file@, Matcher::StructImpl(struct_name@)) is None,
        },
{
    find_item(parsed_file, &MatcherExec::StructImpl(struct_name.to_owned()))
}

/// Finds the first impl block of `trait_name` for `struct_name`.
pub fn find_trait_impl(parsed_file: &ParsedSource, trait_name: &str, struct_name: &str) -> (r:
    Option<usize>)
    ensures
        match r {
            Some(i) => find_item_spec(
                parsed_file@,
                Matcher::TraitImpl(trait_name@, struct_name@),
            ) == Some(i as int) && i < parsed_file@.len(),
            None => find_item_spec(parsed_file@, Matcher::TraitImpl(trait_name@, struct_name@))
                is None,
        },
{
    find_item(parsed_file, &MatcherExec::TraitImpl(trait_name.to_owned(), struct_name.to_owned()))
}

// ---------------------------------------------------------------------------
// Method specifications
// ---------------------------------------------------------------------------

/// The parse of a method specification: `Type::method` names a method of
/// the type's first inherent impl block, `Trait for Type::method` one of
/// the first matching trait impl; the split is at the last `::`, and the
/// trait and type parts around the first ` for ` are trimmed.  Text
/// without `::` is no method specification.
pub open spec fn method_spec_parts(s: Seq<char>) -> Option<
    (Option<Seq<char>>, Seq<char>, Seq<char>),
> {
    let pos = last_match_before(s, "::"@, s.len() as int);
    if pos < 0 {
        None
    } else {
        let type_part = s.subrange(0, pos);
        let method = s.subrange(pos + 2, s.len() as int);
        let f = next_match(type_part, 0, " for "@);
        if f < type_part.len() {
            Some(
                (
                    Some(trim_spec(type_part.subrange(0, f))),
                    trim_spec(type_part.subrange(f + 5, type_part.len() as int)),
                    method,
                ),
            )
        } else {
            Some((None, type_part, method))
        }
    }
}

/// Splits a method specification into its (optional trait, type, method)
/// parts, as [`method_spec_parts`] describes.
pub fn parse_method_spec(method_spec: &str) -> (r: Option<(Option<String>, String, String)>)
    ensures
        match r {
            Some((t, ty, m)) => method_spec_parts(method_spec@) == Some(
                (
                    match t {
                        Some(ref tt) => Some(tt@),
                        None => None::<Seq<char>>,
                    },
                    ty@,
                    m@,
                ),
            ),
            None => method_spec_parts(method_spec@) is None,
        },
{
    let n = method_spec.unicode_len();
    let pos = match rfind_sub(method_spec, n, "::") {
        Some(p) => p,
        None => {
            return None;
        },
    };
    proof {
        crate::text::lemma_last_match_before(method_spec@, "::"@, n as int);
        reveal_strlit("::");
    }
    let type_part = substring_copy(method_spec, 0, pos);
    let method = substring_copy(method_spec, pos + 2, n);
    let tn = type_part.as_str().unicode_len();
    let f = find_sub_from(type_part.as_str(), 0, " for ");
    if f < tn {
        proof {
            reveal_strlit(" for ");
        }
        let trait_raw = substring_copy(type_part.as_str(), 0, f);
        let type_raw = substring_copy(type_part.as_str(), f + 5, tn);
        let trait_name = trim_ws(trait_raw.as_str());
        let self_type = trim_ws(type_raw.as_str());
        Some((Some(trait_name), self_type, method))
    } else {
        Some((None, type_part, method))
    }
}

/// The impl block a method specification selects: the first inherent impl
/// of the type, or the first impl of the named trait for it.
pub open spec fn method_impl_spec(src: Seq<ItemModel>, t: Option<Seq<char>>, ty: Seq<char>) -> Option<
    int,
> {
    match t {
        None => find_item_spec(src, Matcher::StructImpl(ty)),
        Some(tr) => find_item_spec(src, Matcher::TraitImpl(tr, ty)),
    }
}

/// The method a specification text selects: inside the first impl block
/// that matches the specification's type (and trait, if named), the first
/// method of the given name.
pub open spec fn find_method_spec(src: Seq<ItemModel>, spec_text: Seq<char>) -> Option<(int, int)> {
    match method_spec_parts(spec_text) {
        None => None,
        Some((t, ty, m)) => match method_impl_spec(src, t, ty) {
            None => None,
            Some(i) => match first_entry(src[i].entries, m, 0) {
                None => None,
                Some(j) => Some((i, j)),
            },
        },
    }
}

/// Finds the method a specification like `Type::method` or
/// `Trait for Type::method` names: the impl-block index and the entry
/// index inside it, as [`find_method_spec`] describes.
pub fn find_method(parsed_file: &ParsedSource, method_spec: &str) -> (r: Option<(usize, usize)>)
    ensures
        match r {
            Some((i, j)) => {
                &&& find_method_spec(parsed_file@, method_spec@) == Some((i as int, j as int))
                &&& i < parsed_file@.len()
                &&& j < parsed_file@[i as int].entries.len()
            },
            None => find_method_spec(parsed_file@, method_spec@) is None,
        },
{
    let parts = match parse_method_spec(method_spec) {
        Some(parts) => parts,
        None => {
            return None;
        },
    };
    let (trait_name, self_type, method_name) = parts;
    let impl_idx = match &trait_name {
        None => find_struct_impl(parsed_file, self_type.as_str()),
        Some(t) => find_trait_impl(parsed_file, t.as_str(), self_type.as_str()),
    };
    let i = match impl_idx {
        Some(i) => i,
        None => {
            return None;
        },
    };
    match find_entry(parsed_file, i, method_name.as_str()) {
        Some(j) => Some((i, j)),
        None => None,
    }
}

// ---------------------------------------------------------------------------
// Free-name resolution
// ---------------------------------------------------------------------------

/// The first method named `name` in any impl block, scanning items, then
/// entries, in order.
pub open spec fn first_method_anywhere(src: Seq<ItemModel>, name: Seq<char>) -> Option<(int, int)> {
    match find_item_spec(src, Matcher::ImplWithMethod(name)) {
        None => None,
        Some(i) => match first_entry(src[i].entries, name, 0) {
            None => None,  // unreachable: the matcher holds at i
            Some(j) => Some((i, j)),
        },
    }
}

/// What a free (unqualified) name resolves to.
pub enum FreeResolution {
    /// The top-level function at this item index.
    Function(usize),
    /// The method at this item and entry index.
    Method(usize, usize),
    /// Nothing of this name exists.
    NotFound,
}

/// The resolution of a free name: the first top-level function of that
/// name; when there is none, the first method of that name in any impl
/// block; else nothing.
pub open spec fn resolve_free_ok(src: Seq<ItemModel>, name: Seq<char>, r: FreeResolution) -> bool {
    match find_item_spec(src, Matcher::Function(name)) {
        Some(i) => r == FreeResolution::Function(i as usize),
        None => match first_method_anywhere(src, name) {
            Some((i, j)) => r == FreeResolution::Method(i as usize, j as usize),
            None => r == FreeResolution::NotFound,
        },
    }
}

/// Resolves a free (unqualified) name: a top-level function first, then a
/// method of any impl block, as [`resolve_free_ok`] describes.
pub fn resolve_free(parsed_file: &ParsedSource, name: &str) -> (r: FreeResolution)
    ensures
        resolve_free_ok(parsed_file@, name@, r),
        match r {
            FreeResolution::Function(i) => find_item_spec(parsed_file@, Matcher::Function(name@))
                == Some(i as int) && i < parsed_file@.len() && parsed_file@[i as int].kind
                == ItemKind::Function,
            FreeResolution::Method(i, j) => {
                &&& find_item_spec(parsed_file@, Matcher::Function(name@)) is None
                &&& first_method_anywhere(parsed_file@, name@) == Some((i as int, j as int))
                &&& i < parsed_file@.len()
                &&& j < parsed_file@[i as int].entries.len()
                &&& parsed_file@[i as int].entries[j as int].is_fn
            },
            FreeResolution::NotFound => find_item_spec(parsed_file@, Matcher::Function(name@))
                is None && first_method_anywhere(parsed_file@, name@) is None,
        },
{
    if let Some(i) = find_function(parsed_file, name) {
        proof {
            lemma_first_match_props(parsed_file@, Matcher::Function(name@), 0);
        }
        return FreeResolution::Function(i);
    }
    match find_item(parsed_file, &MatcherExec::ImplWithMethod(name.to_owned())) {
        Some(i) => {
            match find_entry(parsed_file, i, name) {
                Some(j) => {
                    proof {
                        lemma_first_entry_props(parsed_file@[i as int].entries, name@, 0);
                    }
                    FreeResolution::Method(i, j)
                },
                None => {
                    proof {
                        crate::locator::lemma_first_match_props(
                            parsed_file@,
                            Matcher::ImplWithMethod(name@),
                            0,
                        );
                        assert(false);
                    }
                    FreeResolution::NotFound
                },
            }
        },
        None => FreeResolution::NotFound,
    }
}

} // verus!
